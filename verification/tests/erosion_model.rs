use terrain::erosion::{ErosionStepper, Params};
use terrain::field::{Cell, Dirs, HeightField};
use terrain::fixed::{div_fp, isqrt, mul_fp, sat_add, sat_sub, sqrt_fp, SCALE};

fn default_params() -> Params {
    Params {
        precipitation_rate: 0,
        dt: SCALE,
        erosion_rate: 300_000,
        deposition_rate: 300_000,
        capacity_k: SCALE,
        target_factor: SCALE,
    }
}

fn total_mass(field: &HeightField) -> u128 {
    let mut sum: u128 = 0;
    for y in 0..field.height {
        for x in 0..field.width {
            let c = field.cell(x, y);
            sum += c.bedrock as u128;
            sum += c.bed_sediment as u128;
            sum += c.suspended_sediment as u128;
            sum += c.water as u128;
        }
    }
    sum
}

#[test]
fn fixed_point_ops_exact_values() {
    assert_eq!(sat_add(3, 5), 8);
    assert_eq!(sat_add(u64::MAX, 1), u64::MAX);
    assert_eq!(sat_sub(5, 3), 2);
    assert_eq!(sat_sub(3, 5), 0);
    // 1.5 * 2.0 == 3.0
    assert_eq!(mul_fp(1_500_000, 2_000_000), 3_000_000);
    // 1.0 / 4.0 == 0.25
    assert_eq!(div_fp(1_000_000, 4_000_000), 250_000);
    assert_eq!(div_fp(1_000_000, 0), 0);
    assert_eq!(isqrt(0), 0);
    assert_eq!(isqrt(10), 3);
    assert_eq!(isqrt(144), 12);
    // sqrt(4.0) == 2.0, sqrt(0.25) == 0.5
    assert_eq!(sqrt_fp(4_000_000), 2_000_000);
    assert_eq!(sqrt_fp(250_000), 500_000);
}

#[test]
fn new_field_is_seeded_and_zeroed() {
    let f = HeightField::new(4, 3, 7_000_000);
    assert_eq!(f.width, 4);
    assert_eq!(f.height, 3);
    assert_eq!(f.cells.len(), 12);
    for y in 0..3 {
        for x in 0..4 {
            let c = f.cell(x, y);
            assert_eq!(c.bedrock, 7_000_000);
            assert_eq!(c.bed_sediment, 0);
            assert_eq!(c.suspended_sediment, 0);
            assert_eq!(c.water, 0);
            assert_eq!(c.outflow.n, 0);
            assert_eq!(c.flow_speed.w, 0);
            assert_eq!(c.total_height(), 7_000_000);
        }
    }
}

#[test]
fn neighbors_wrap_torus_in_x_and_antipodally_in_y() {
    let f = HeightField::new(6, 4, 0);
    // east/west wrap modulo the width
    assert_eq!(f.east(5, 2), (0, 2));
    assert_eq!(f.east(1, 2), (2, 2));
    assert_eq!(f.west(0, 2), (5, 2));
    assert_eq!(f.west(4, 2), (3, 2));
    // interior north/south move one row
    assert_eq!(f.north(2, 1), (2, 2));
    assert_eq!(f.south(2, 1), (2, 0));
    // pole wrap: same row, antipodal column (x + width/2 mod width)
    assert_eq!(f.north(1, 3), (4, 3));
    assert_eq!(f.north(5, 3), (2, 3));
    assert_eq!(f.south(1, 0), (4, 0));
    assert_eq!(f.south(4, 0), (1, 0));
}

#[test]
fn precipitation_on_flat_grid_raises_water_only() {
    // 4 x 4 grid, bedrock 1.0 everywhere, all else zero; one tick of
    // precipitation 0.1 with every neighbor height equal: outflow stays 0
    // and every cell's water becomes exactly 0.1.
    let mut f = HeightField::new(4, 4, 1_000_000);
    let mut p = default_params();
    p.precipitation_rate = 100_000;
    ErosionStepper::step(&mut f, &p);
    for y in 0..4 {
        for x in 0..4 {
            let c = f.cell(x, y);
            assert_eq!(c.water, 100_000);
            assert_eq!(c.outflow, Dirs { n: 0, e: 0, s: 0, w: 0 });
            assert_eq!(c.flow_speed, Dirs { n: 0, e: 0, s: 0, w: 0 });
            assert_eq!(c.bedrock, 1_000_000);
            assert_eq!(c.bed_sediment, 0);
            assert_eq!(c.suspended_sediment, 0);
        }
    }
}

#[test]
fn still_flat_grid_conserves_mass_without_precipitation() {
    // Flat uniform grid, zero precipitation: one tick changes nothing, so
    // total system mass is exactly conserved.
    let mut f = HeightField::new(5, 4, 2_500_000);
    let p = default_params();
    let before = total_mass(&f);
    ErosionStepper::step(&mut f, &p);
    assert_eq!(total_mass(&f), before);
    for y in 0..4 {
        for x in 0..5 {
            let c = f.cell(x, y);
            assert_eq!(c.bedrock, 2_500_000);
            assert_eq!(c.water, 0);
        }
    }
}

#[test]
fn seeded_peak_scales_outflow_to_available_water() {
    // A single cell at bedrock 2.0 among neighbors at 1.0, seeded with
    // water 1.0 and outflow and flow speed 1.0 in every direction: each
    // direction grows to max(0, 1.0 + 1.0 * 3.0 - 1.0) = 3.0 before
    // scaling, then the scaler min(1, 1.0 / 12.0) brings each down to 0.25.
    let mut f = HeightField::new(4, 4, 1_000_000);
    let peak = Cell {
        bedrock: 2_000_000,
        bed_sediment: 0,
        suspended_sediment: 0,
        water: 1_000_000,
        outflow: Dirs { n: 1_000_000, e: 1_000_000, s: 1_000_000, w: 1_000_000 },
        flow_speed: Dirs { n: 1_000_000, e: 1_000_000, s: 1_000_000, w: 1_000_000 },
    };
    f.set_cell(1, 1, peak);
    let p = default_params();
    ErosionStepper::step(&mut f, &p);
    let c = f.cell(1, 1);
    assert_eq!(c.outflow, Dirs { n: 250_000, e: 250_000, s: 250_000, w: 250_000 });
    // the scaled total equals the water that was on hand, so none is left
    assert_eq!(c.water, 0);
}

#[test]
fn uneven_grid_conserves_mass_without_precipitation() {
    // Mass moves between cells and reservoirs but is neither created nor
    // destroyed while no precipitation enters the system.
    let mut f = HeightField::new(4, 4, 1_000_000);
    f.set_cell(
        0,
        0,
        Cell {
            bedrock: 3_000_000,
            bed_sediment: 400_000,
            suspended_sediment: 50_000,
            water: 2_000_000,
            outflow: Dirs { n: 100_000, e: 0, s: 300_000, w: 0 },
            flow_speed: Dirs { n: 500_000, e: 250_000, s: 125_000, w: 0 },
        },
    );
    f.set_cell(
        2,
        1,
        Cell {
            bedrock: 1_500_000,
            bed_sediment: 0,
            suspended_sediment: 700_000,
            water: 900_000,
            outflow: Dirs { n: 0, e: 80_000, s: 0, w: 20_000 },
            flow_speed: Dirs { n: 0, e: 1_000_000, s: 0, w: 1_000_000 },
        },
    );
    let p = default_params();
    let before = total_mass(&f);
    for _ in 0..3 {
        ErosionStepper::step(&mut f, &p);
        assert_eq!(total_mass(&f), before);
    }
}

#[test]
fn precipitation_adds_exactly_one_rate_per_cell_and_tick() {
    // The mass ledger over the whole grid: each tick adds precisely
    // width * height * precipitation_rate to the total system mass,
    // whatever is flowing.
    let mut f = HeightField::new(4, 4, 1_000_000);
    f.set_cell(
        1,
        2,
        Cell {
            bedrock: 2_500_000,
            bed_sediment: 120_000,
            suspended_sediment: 60_000,
            water: 800_000,
            outflow: Dirs { n: 50_000, e: 0, s: 70_000, w: 0 },
            flow_speed: Dirs { n: 400_000, e: 0, s: 900_000, w: 100_000 },
        },
    );
    let mut p = default_params();
    p.precipitation_rate = 250_000;
    let mut expected = total_mass(&f);
    for _ in 0..4 {
        ErosionStepper::step(&mut f, &p);
        expected += 16 * 250_000u128;
        assert_eq!(total_mass(&f), expected);
    }
}

#[test]
fn fields_stay_in_range_and_bedrock_never_grows() {
    // Clamping keeps every reservoir nonnegative (the representation admits
    // nothing else) and erosion can only lower bedrock.
    let mut f = HeightField::new(6, 5, 2_000_000);
    f.set_cell(
        3,
        2,
        Cell {
            bedrock: 9_000_000,
            bed_sediment: 10_000,
            suspended_sediment: 0,
            water: 4_000_000,
            outflow: Dirs { n: 0, e: 0, s: 0, w: 0 },
            flow_speed: Dirs { n: 2_000_000, e: 2_000_000, s: 2_000_000, w: 2_000_000 },
        },
    );
    let mut p = default_params();
    p.precipitation_rate = 50_000;
    let mut prev_rock: Vec<u64> = Vec::new();
    for y in 0..5 {
        for x in 0..6 {
            prev_rock.push(f.cell(x, y).bedrock);
        }
    }
    for _ in 0..10 {
        ErosionStepper::step(&mut f, &p);
        assert_eq!(f.width, 6);
        assert_eq!(f.height, 5);
        assert_eq!(f.cells.len(), 30);
        let mut k = 0;
        for y in 0..5 {
            for x in 0..6 {
                let rock = f.cell(x, y).bedrock;
                assert!(rock <= prev_rock[k]);
                prev_rock[k] = rock;
                k += 1;
            }
        }
    }
}

#[test]
fn total_height_grid_reads_the_snapshot() {
    let mut f = HeightField::new(3, 3, 1_000_000);
    f.set_cell(
        2,
        1,
        Cell {
            bedrock: 1_000_000,
            bed_sediment: 200_000,
            suspended_sediment: 900_000,
            water: 300_000,
            outflow: Dirs { n: 0, e: 0, s: 0, w: 0 },
            flow_speed: Dirs { n: 0, e: 0, s: 0, w: 0 },
        },
    );
    let g = f.total_height_grid();
    assert_eq!(g.len(), 3);
    for row in &g {
        assert_eq!(row.len(), 3);
    }
    // suspended sediment travels with the water: it is not stacked
    assert_eq!(g[1][2], 1_500_000);
    assert_eq!(g[0][0], 1_000_000);
}
