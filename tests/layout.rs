use instancing::layout::{
    fill_instances, layout_instances, GridConfig, Instance, Ratio, INSTANCES_PER_SIDE,
    MAX_INSTANCE_COUNT,
};

fn as_float(num: i64, denom: i64) -> f64 {
    num as f64 / denom as f64
}

fn grid_cells(per_side: u32, instances: &[Instance]) -> Vec<(u32, u32, i64, i64)> {
    let mut cells = Vec::new();
    for x in 0..per_side {
        for y in 0..per_side {
            let inst = instances[(x * per_side + y) as usize];
            cells.push((x, y, inst.tx, inst.ty));
        }
    }
    cells
}

#[test]
fn two_by_two_grid_translations() {
    let colors = vec![11, 22, 33, 44];
    let layout = layout_instances(2, Ratio { num: 8, den: 10 }, &colors);
    assert_eq!(layout.denom, 300);
    let expected = [(-140, -140), (-140, 140), (140, -140), (140, 140)];
    assert_eq!(layout.instances.len(), 4);
    for (inst, (tx, ty)) in layout.instances.iter().zip(expected.iter()) {
        assert_eq!(inst.tx, *tx);
        assert_eq!(inst.ty, *ty);
    }
    let begin = as_float(layout.instances[0].tx, layout.denom);
    assert!((begin - (-0.4667)).abs() < 1e-4);
    let last = as_float(layout.instances[3].ty, layout.denom);
    assert!((last - 0.4667).abs() < 1e-4);
}

#[test]
fn colors_follow_index_order() {
    let colors = vec![0xff0000ff, 0x00ff00ff, 0x0000ffff, 0xffffffff];
    let layout = layout_instances(2, Ratio { num: 8, den: 10 }, &colors);
    let got: Vec<u32> = layout.instances.iter().map(|i| i.color).collect();
    assert_eq!(got, colors);
}

#[test]
fn gap_and_step_match_formulas() {
    // Three per side with quads of edge 0.5: gap 0.1, step 0.6, first center -0.65.
    let colors = vec![0; 9];
    let layout = layout_instances(3, Ratio { num: 1, den: 2 }, &colors);
    assert_eq!(layout.denom, 80);
    assert!((as_float(layout.instances[0].tx, layout.denom) - (-0.65)).abs() < 1e-9);
    let step = layout.instances[1].ty - layout.instances[0].ty;
    assert!((as_float(step, layout.denom) - 0.6).abs() < 1e-9);
    assert_eq!(layout.instances[1].tx, layout.instances[0].tx);
}

#[test]
fn empty_grid() {
    let layout = layout_instances(0, Ratio { num: 8, den: 10 }, &Vec::new());
    assert!(layout.instances.is_empty());
}

#[test]
fn record_count_is_square_of_side() {
    for n in 1..=45u32 {
        let colors = vec![0u32; (n * n) as usize];
        let layout = layout_instances(n, Ratio { num: 8, den: 5 * n }, &colors);
        assert_eq!(layout.instances.len(), (n * n) as usize);
    }
}

#[test]
fn translations_stay_inside_margin() {
    let config = GridConfig::new(INSTANCES_PER_SIDE).unwrap();
    let colors = vec![0u32; config.count as usize];
    let layout = layout_instances(config.per_side, config.quad, &colors);
    let gap = 4 * config.quad.den as i64;
    for inst in &layout.instances {
        for c in [inst.tx, inst.ty] {
            assert!(gap - layout.denom <= c && c <= layout.denom - gap);
        }
    }
    let gap_f = 0.4 / (INSTANCES_PER_SIDE as f64 + 1.0);
    let last = as_float(layout.instances[layout.instances.len() - 1].tx, layout.denom);
    assert!(last <= 1.0 - gap_f + 1e-12);
}

#[test]
fn spacing_is_uniform() {
    let n = 5u32;
    let quad = Ratio { num: 1, den: 4 };
    let colors = vec![0u32; 25];
    let layout = layout_instances(n, quad, &colors);
    let step = 10 * (n as i64 + 1) * quad.num as i64 + 4 * quad.den as i64;
    for x in 0..n {
        for y in 0..n - 1 {
            let a = layout.instances[(x * n + y) as usize];
            let b = layout.instances[(x * n + y + 1) as usize];
            assert_eq!(b.ty - a.ty, step);
            assert_eq!(b.tx, a.tx);
        }
    }
}

#[test]
fn random_layouts_share_their_shape() {
    let config = GridConfig::new(7).unwrap();
    let mut rng = rand::StdRng::new().unwrap();
    let a = fill_instances(config.per_side, config.quad, &mut rng);
    let b = fill_instances(config.per_side, config.quad, &mut rng);
    assert_eq!(a.denom, b.denom);
    assert_eq!(a.instances.len(), 49);
    assert_eq!(grid_cells(7, &a.instances), grid_cells(7, &b.instances));
    let colors = vec![0u32; 49];
    let fixed = layout_instances(config.per_side, config.quad, &colors);
    assert_eq!(grid_cells(7, &a.instances), grid_cells(7, &fixed.instances));
}

#[test]
fn capacity_accepts_forty_five() {
    let config = GridConfig::new(45).unwrap();
    assert_eq!(config.count, 2025);
    assert!(config.count <= MAX_INSTANCE_COUNT);
}

#[test]
fn capacity_refuses_forty_six() {
    assert_eq!(GridConfig::new(46), None);
    assert_eq!(GridConfig::new(u32::MAX), None);
}

#[test]
fn default_grid_config() {
    let config = GridConfig::new(INSTANCES_PER_SIDE).unwrap();
    assert_eq!(config.per_side, 32);
    assert_eq!(config.count, 1024);
    assert_eq!(config.quad, Ratio { num: 8, den: 160 });
    assert!((config.quad.num as f64 / config.quad.den as f64 - 0.05).abs() < 1e-12);
}
