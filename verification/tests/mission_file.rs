use orbital::bodies::BodyId;
use orbital::mission::{
    assemble, deserialize, engine_from_token, engine_token, launcher_from_token, launcher_token,
    mission_from_token, mission_token, serialize, MissionNumbers, MissionReading, MissionText,
    SavedMission, FORMAT_VERSION, MISSION_FILE,
};
use orbital::problem::{Engine, Launcher, MissionType};
use orbital::scalar::Scalar;
use orbital::text::{chars_of, text_of};

fn scalar(x: f64) -> Scalar {
    Scalar { bits: x.to_bits() }
}

fn show(x: f64) -> Vec<char> {
    chars_of(&format!("{x:e}"))
}

fn parse(t: &Vec<char>) -> Option<Scalar> {
    text_of(t).parse::<f64>().ok().map(scalar)
}

fn numbers(m: &MissionReading) -> MissionNumbers {
    let rows = |t: &Vec<Vec<Vec<char>>>| -> Vec<Vec<Option<Scalar>>> {
        t.iter().map(|r| r.iter().map(parse).collect()).collect()
    };
    MissionNumbers {
        depart: match &m.depart {
            Some(t) => parse(t),
            None => None,
        },
        legs: m.legs.iter().map(parse).collect(),
        vinf: rows(&m.vinf),
        thrust: rows(&m.thrust),
        dsm: rows(&m.dsm),
    }
}

fn load(text: &str) -> Option<SavedMission> {
    let m = deserialize(text)?;
    let n = numbers(&m);
    assemble(&m, &n)
}

fn tour() -> MissionText {
    MissionText {
        target: BodyId::Jupiter,
        mission: MissionType::Flyby,
        engine: Engine::NextC,
        launcher: Launcher::KickStage,
        route: vec![BodyId::Venus, BodyId::Earth, BodyId::Earth],
        depart: show(8.35e8),
        legs: vec![show(169.3), show(-0.0), show(f64::INFINITY), show(1e-310)],
        vinf: vec![show(1.5), show(-2.25), show(0.1)],
        thrust: vec![vec![show(-0.85), show(0.0), show(1.0)]],
        dsm: vec![
            vec![show(0.5), show(0.0), show(0.0), show(0.0)],
            vec![show(0.95), show(-1.0), show(2.0), show(0.3)],
        ],
        branch: vec![0, 3, 0, 12],
    }
}

#[test]
fn file_is_laid_out_line_by_line() {
    assert_eq!(MISSION_FILE, "mission.orbital");
    assert_eq!(FORMAT_VERSION, 2);
    assert_eq!(
        serialize(&tour()),
        "version=2\ntarget=Jupiter\nmission=flyby\nengine=next\nlauncher=kick\n\
         route=Venus,Earth,Earth\ndepart_tdb_s=8.35e8\nlegs=1.693e2,-0e0,inf,1e-310\n\
         vinf=1.5e0,-2.25e0,1e-1\nthrust=-8.5e-1:0e0:1e0\n\
         dsm=5e-1:0e0:0e0:0e0,9.5e-1:-1e0:2e0:3e-1\nbranch=0,3,0,12\n"
    );
}

#[test]
fn a_saved_mission_comes_back() {
    let s = load(&serialize(&tour())).unwrap();
    assert_eq!(s.cfg.target, BodyId::Jupiter);
    assert_eq!(s.cfg.mission, MissionType::Flyby);
    assert_eq!(s.cfg.engine, Engine::NextC);
    assert_eq!(s.cfg.launcher, Launcher::KickStage);
    assert_eq!(s.cfg.route, vec![BodyId::Venus, BodyId::Earth, BodyId::Earth]);
    assert!(!s.cfg.auto_route);
    assert_eq!(s.depart_tdb_s, scalar(8.35e8));
    assert_eq!(
        s.genome.legs,
        vec![scalar(169.3), scalar(-0.0), scalar(f64::INFINITY), scalar(1e-310)]
    );
    assert_eq!(s.genome.vinf_dep, [scalar(1.5), scalar(-2.25), scalar(0.1)]);
    assert_eq!(s.genome.thrust, vec![[scalar(-0.85), scalar(0.0), scalar(1.0)]]);
    assert_eq!(s.genome.dsm.len(), 2);
    assert_eq!(s.genome.dsm[1], [scalar(0.95), scalar(-1.0), scalar(2.0), scalar(0.3)]);
    assert_eq!(s.genome.depart_days, scalar(0.0));
    assert_eq!(s.genome.branch, vec![0, 3, 0, 12]);
    let plan = s.genome.leg_plan(1);
    assert_eq!((plan.tof_days, plan.branch), (scalar(-0.0), 3));
    assert_eq!(plan.burn, Some([scalar(0.95), scalar(-1.0), scalar(2.0), scalar(0.3)]));
}

#[test]
fn branches_are_read_leg_by_leg() {
    let branches = |line: &str| {
        let text = format!("depart_tdb_s=1e8\nlegs=250,300,90\n{line}");
        load(&text).unwrap().genome
    };
    let old = branches("");
    assert!(old.branch.is_empty());
    assert_eq!((old.leg_branch(0), old.leg_branch(2)), (0, 0));
    let short = branches("branch=2\n");
    assert_eq!(short.branch, vec![2]);
    assert_eq!((short.leg_branch(0), short.leg_branch(1)), (2, 0));
    assert!(branches("branch=\n").branch.is_empty());
    assert_eq!(branches("branch=1,,x,4294967295,4294967296,-1\n").branch, vec![
        1, 0, 0, u32::MAX, 0, 0
    ]);
    assert_eq!(branches("branch=1,2\nbranch=3\n").branch, vec![3]);
}

#[test]
fn a_direct_mission_comes_back() {
    let mut m = tour();
    m.route = vec![];
    m.thrust = vec![];
    m.dsm = vec![];
    m.branch = vec![];
    let s = load(&serialize(&m)).unwrap();
    assert!(s.cfg.route.is_empty());
    assert!(s.genome.thrust.is_empty() && s.genome.dsm.is_empty() && s.genome.branch.is_empty());
    assert_eq!(s.genome.legs.len(), 4);
}

#[test]
fn every_choice_survives_its_token() {
    for m in MissionType::ALL {
        assert_eq!(mission_from_token(mission_token(m)), Some(m));
        assert_eq!(mission_from_token(m.label()), Some(m));
    }
    for e in Engine::ALL {
        assert_eq!(engine_from_token(engine_token(e)), e);
    }
    for l in Launcher::ALL {
        assert_eq!(launcher_from_token(launcher_token(l)), l);
    }
    assert_eq!(mission_from_token("Orbit"), None);
    assert_eq!(engine_from_token("warp"), Engine::Ballistic);
    assert_eq!(launcher_from_token("saturn-v"), Launcher::FalconHeavy);
}

#[test]
fn files_without_a_version_load() {
    let s = load("target=mars\nmission=land\nlegs=250\ndepart_tdb_s=1e8\n").unwrap();
    assert_eq!(s.cfg.target, BodyId::Mars);
    assert_eq!(s.cfg.mission, MissionType::Land);
    assert_eq!(s.genome.legs, vec![scalar(250.0)]);
    assert_eq!(s.genome.vinf_dep, [scalar(0.0); 3]);
}

#[test]
fn unknown_names_spoil_the_file() {
    assert!(deserialize("target=Vulcan\nlegs=1\ndepart_tdb_s=1\n").is_none());
    assert!(deserialize("mission=invade\n").is_none());
    assert!(deserialize("route=Venus,Vulcan\n").is_none());
    assert!(deserialize("route=,Venus,,\n").is_some());
    assert!(deserialize("").is_some());
}

#[test]
fn a_file_needs_flight_times_and_a_departure() {
    assert!(load("legs=250\n").is_none());
    assert!(load("depart_tdb_s=1e8\n").is_none());
    assert!(load("depart_tdb_s=soon\nlegs=250\n").is_none());
    assert!(load("depart_tdb_s=1e8\nlegs=,,x\n").is_none());
    assert!(load("depart_tdb_s=1\ndepart_tdb_s=soon\nlegs=250\n").is_none());
}

#[test]
fn later_lines_override_or_add() {
    let s = load(
        "junk\nfoo=bar\nlegs=1,2\nlegs=3,x,4\nroute=Venus\nroute=Earth\nvinf=1,2,3\nvinf=4,5\n\
         thrust=1:2:3,1:2\nthrust=4:5:6\ndsm=1:2:3\ndsm=.5:1:2:3\ndepart_tdb_s=7\n",
    )
    .unwrap();
    assert_eq!(s.genome.legs, vec![scalar(3.0), scalar(4.0)]);
    assert_eq!(s.cfg.route, vec![BodyId::Venus, BodyId::Earth]);
    assert_eq!(s.genome.vinf_dep, [scalar(1.0), scalar(2.0), scalar(3.0)]);
    assert_eq!(s.genome.thrust.len(), 2);
    assert_eq!(s.genome.dsm, vec![[scalar(0.5), scalar(1.0), scalar(2.0), scalar(3.0)]]);
    assert_eq!(s.depart_tdb_s, scalar(7.0));
}

#[test]
fn carriage_returns_end_lines_too() {
    let text = serialize(&tour()).replace('\n', "\r\n");
    assert_eq!(load(&text).unwrap().genome.legs.len(), 4);
}
