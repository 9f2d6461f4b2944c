use orbital::bodies::{BodyId, ALL_BODIES, BODY_COUNT};
use orbital::dates::default_start;
use orbital::ephemeris::{
    coverage, fidelity_label, kernel_order, model, sample_count, segment, tabulated, Backing,
    Model, Source,
};
use orbital::porkchop::{groups, span_samples, Cell, Fraction, GridSpec, Porkchop, NX, NY};
use orbital::scalar::Scalar;
use orbital::scene::{
    index_bytes, mesh_indices, mesh_points, plan_frame, MeshPoint, Strip, MAX_LINE_VERTS,
    MAX_SPHERES, MAX_TRI_VERTS,
};
use orbital::words::words_of;

fn names(list: &[&str]) -> Vec<String> {
    list.iter().map(|s| s.to_string()).collect()
}

fn spec() -> GridSpec {
    let days = |x: f64| Scalar { bits: x.to_bits() };
    GridSpec {
        start: default_start(),
        window_days: days(900.0),
        tof_min_days: days(60.0),
        tof_max_days: days(600.0),
    }
}

#[test]
fn kernels_load_by_name() {
    let dir = names(&["sat441.bsp", "notes.txt", "de440s.bsp", ".bsp", "a.BSP", "jup365.bsp",
        "de440.bsp", "x..bsp", "bsp"]);
    let order: Vec<&str> = kernel_order(&dir).iter().map(|i| dir[*i].as_str()).collect();
    assert_eq!(order, ["de440.bsp", "de440s.bsp", "jup365.bsp", "sat441.bsp", "x..bsp"]);
    let mut want: Vec<&String> = dir.iter().filter(|n| {
        std::path::Path::new(n.as_str()).extension().is_some_and(|x| x == "bsp")
    }).collect();
    want.sort();
    assert_eq!(order, want);
    assert!(kernel_order(&names(&["readme"])).is_empty());
}

#[test]
fn fidelity_is_told() {
    let mut covered = [false; BODY_COUNT];
    assert_eq!(
        fidelity_label(&vec![], &covered),
        "Keplerian approximation (place de440s.bsp in data/ for DE440)"
    );
    covered[0] = true;
    covered[20] = true;
    assert_eq!(coverage(&covered), 2);
    assert_eq!(
        fidelity_label(&names(&["de440s.bsp", "jup365.bsp"]), &covered),
        "SPICE: de440s.bsp+jup365.bsp (2/21 bodies)"
    );
}

#[test]
fn states_come_from_the_best_source() {
    let mut some = [false; BODY_COUNT];
    some[BodyId::Mars.index()] = true;
    let kernels = Backing::Kernels { covered: some };
    assert_eq!(kernels.source(BodyId::Mars), Source::Kernel);
    assert_eq!(kernels.source(BodyId::Io), Source::Model);
    let tables = Backing::Tables { tabulated: some };
    assert_eq!(tables.source(BodyId::Mars), Source::Table);
    assert_eq!(tables.source(BodyId::Venus), Source::Model);
    assert_eq!(Backing::Models.source(BodyId::Mars), Source::Model);
    assert_eq!(model(BodyId::Sun), Model::Origin);
    assert_eq!(model(BodyId::Io), Model::Circle { parent: BodyId::Jupiter });
    assert_eq!(model(BodyId::Ceres), Model::Ellipse);
}

#[test]
fn moons_are_never_tabulated() {
    let t = tabulated(&[true; BODY_COUNT]);
    for (i, b) in ALL_BODIES.iter().enumerate() {
        assert_eq!(t[i], b.parent().is_none());
    }
    assert_eq!(tabulated(&[false; BODY_COUNT]), [false; BODY_COUNT]);
}

#[test]
fn tables_clamp_at_their_ends() {
    assert_eq!(sample_count(0), 2);
    assert_eq!(sample_count(9), 10);
    assert_eq!(segment(-5, 10), 0);
    assert_eq!(segment(4, 10), 4);
    assert_eq!(segment(8, 10), 8);
    assert_eq!(segment(9, 10), 8);
    assert_eq!(segment(i64::MAX, 2), 0);
}

#[test]
fn grid_is_read_from_its_bytes() {
    let mut bytes: Vec<u8> = Vec::new();
    for k in 0..NX * NY {
        bytes.extend_from_slice(&(k as f32).to_ne_bytes());
        bytes.extend_from_slice(&(0.5f32).to_ne_bytes());
    }
    let grid = Porkchop::read(spec(), &bytes).unwrap();
    assert_eq!(grid.window_days, spec().window_days);
    assert_eq!(f32::from_bits(grid.cell(3, 2).departure), (2 * NX + 3) as f32);
    assert_eq!(f32::from_bits(grid.cell(NX - 1, NY - 1).arrival), 0.5);
    bytes.pop();
    assert!(Porkchop::read(spec(), &bytes).is_none());
    assert!(Porkchop::read(spec(), &Vec::new()).is_none());
}

#[test]
fn words_are_read_from_bytes() {
    let mut bytes: Vec<u8> = Vec::new();
    for w in [0x0102_0304u32, 7, u32::MAX] {
        bytes.extend_from_slice(&w.to_ne_bytes());
    }
    assert_eq!(words_of(&bytes), Some(vec![0x0102_0304, 7, u32::MAX]));
    bytes.push(0);
    assert_eq!(words_of(&bytes), None);
}

#[test]
fn porkchop_cells() {
    let grid: Vec<Cell> =
        (0..NX * NY).map(|k| Cell { departure: k as u32, arrival: 0 }).collect();
    let p = Porkchop::new(spec(), grid).unwrap();
    assert_eq!(p.cell(3, 2).departure, (2 * 256 + 3) as u32);
    assert_eq!(p.cell(NX - 1, NY - 1).departure, (NX * NY - 1) as u32);
    assert_eq!(p.cell(NX + 3, 1), p.cell(3, 2));
    assert_eq!(p.cell(NX * NY - 1, 0), p.cell(NX - 1, NY - 1));
    let (t, f) = p.cell_time(255, 0);
    assert_eq!(t, Fraction { part: 255, whole: 255 });
    assert_eq!(f, Fraction { part: 0, whole: 191 });
    assert!(Porkchop::new(spec(), vec![]).is_none());
    assert_eq!((groups(NX), groups(NY), groups(9), groups(0)), (32, 24, 2, 0));
    assert_eq!(span_samples(3004), 3006);
}

#[test]
fn cells_without_a_solution_are_marked() {
    for a in [0.0f32, 3.5, 9.9e7, 1e8, 1e12, f32::INFINITY, f32::NAN, -f32::NAN, -1.0] {
        for b in [2.0f32, 1e8] {
            let c = Cell { departure: a.to_bits(), arrival: b.to_bits() };
            assert_eq!(Porkchop::is_valid(c), a < 1e8 && b < 1e8, "{a} {b}");
        }
    }
}

#[test]
fn sphere_mesh() {
    let points = mesh_points(24, 36);
    assert_eq!(points.len(), 25 * 37);
    assert_eq!(points[38], MeshPoint { ring: 1, sector: 1 });
    let idx = mesh_indices(24, 36);
    assert_eq!(idx.len(), 6 * 24 * 36);
    assert_eq!(idx[..12], [0, 37, 1, 1, 37, 38, 1, 38, 2, 2, 38, 39]);
    assert!(idx.iter().all(|i| (*i as usize) < points.len()));
    assert_eq!(*idx.last().unwrap(), 924);
    assert!(mesh_indices(0, 5).is_empty() && mesh_indices(5, 0).is_empty());
}

#[test]
fn index_buffer_holds_the_indices() {
    let bytes = index_bytes(24, 36);
    let words: Vec<u32> =
        bytes.chunks(4).map(|c| u32::from_ne_bytes([c[0], c[1], c[2], c[3]])).collect();
    assert_eq!(words, mesh_indices(24, 36));
}

#[test]
fn frames_fit_their_buffers() {
    let strip = |start, count| Strip { start, count };
    let strips = vec![strip(0, 5), strip(5, 1), strip(4, 6), strip(8, 3), strip(0, 10)];
    let p = plan_frame(3, 10, &strips, 8);
    assert_eq!((p.spheres, p.line_verts, p.tri_verts, p.tri_count), (3, 10, 8, 6));
    assert_eq!(p.strips, vec![strip(0, 5), strip(4, 6), strip(0, 10)]);
    let p = plan_frame(100, 1_000_000, &vec![strip(199_990, 11)], 1_000_000);
    assert_eq!(p.spheres as usize, MAX_SPHERES);
    assert_eq!(p.line_verts, MAX_LINE_VERTS);
    assert_eq!((p.tri_verts, p.tri_count), (MAX_TRI_VERTS, 60_000));
    assert!(p.strips.is_empty());
}
