use particle_sim::{Kind, Node, Push, SimError, Simulation, TagTest};

type P = (f32, f32);

fn repel(f: f32, r: f32) -> Node<P> {
    Node { kind: Kind::Repel, params: (f, r), test: None, key: None, value: None, slot: 0, children: vec![] }
}

fn assign(key: &str, value: &str, slot: usize) -> Node<P> {
    Node {
        kind: Kind::Assign,
        params: (0.0, 0.0),
        test: None,
        key: Some(key.to_string()),
        value: Some(value.to_string()),
        slot,
        children: vec![],
    }
}

fn test_of(op: &str, key: &str, value: &str) -> TagTest {
    TagTest { op: op.to_string(), key: key.to_string(), value: value.to_string() }
}

#[test]
fn read_back_after_create_is_the_input() {
    let flat = vec![0.5f32, -1.0, 2.0, 3.25, 4.0, 5.0];
    let sim: Simulation<P, f32> = Simulation::create(flat.clone(), 2, vec![]).unwrap();
    assert_eq!(sim.get(), flat);
    assert_eq!(sim.len(), 3);
    assert_eq!(sim.dims(), 2);
    let sim3: Simulation<P, f32> = Simulation::create(flat.clone(), 3, vec![]).unwrap();
    assert_eq!(sim3.get(), flat);
    assert_eq!(sim3.len(), 2);
}

#[test]
fn create_refuses_bad_dimensionality() {
    let r: Result<Simulation<P, f32>, SimError> = Simulation::create(vec![1.0, 2.0, 3.0], 2, vec![]);
    assert_eq!(r.err(), Some(SimError::DimensionalityMismatch));
    let r: Result<Simulation<P, f32>, SimError> = Simulation::create(vec![1.0, 2.0, 3.0, 4.0], 4, vec![]);
    assert_eq!(r.err(), Some(SimError::DimensionalityMismatch));
    let r: Result<Simulation<P, f32>, SimError> = Simulation::create(vec![], 2, vec![]);
    assert_eq!(r.map(|s| s.len()), Ok(0));
}

#[test]
fn set_meta_and_out_of_range() {
    let mut sim: Simulation<P, f32> = Simulation::create(vec![0.0, 0.0, 1.0, 0.0], 2, vec![]).unwrap();
    assert_eq!(sim.set_meta(1, "species".to_string(), "predator".to_string()), Ok(()));
    assert_eq!(sim.tag(1, &"species".to_string()), Ok("predator".to_string()));
    assert_eq!(sim.tag(0, &"species".to_string()), Ok(String::new()));
    assert_eq!(sim.set_meta(2, "k".to_string(), "v".to_string()), Err(SimError::IndexOutOfRange));
    assert_eq!(sim.tag(2, &"k".to_string()), Err(SimError::IndexOutOfRange));
}

#[test]
fn get_if_keeps_order_of_passing_particles() {
    let flat = vec![0.0f32, 1.0, 2.0, 3.0, 4.0, 5.0, 6.0, 7.0];
    let mut sim: Simulation<P, f32> = Simulation::create(flat, 2, vec![]).unwrap();
    sim.set_meta(1, "species".to_string(), "predator".to_string()).unwrap();
    sim.set_meta(3, "species".to_string(), "predator".to_string()).unwrap();
    assert_eq!(sim.get_if(&test_of("==", "species", "predator")), vec![2.0, 3.0, 6.0, 7.0]);
    assert_eq!(sim.get_if(&test_of("!=", "species", "predator")), vec![0.0, 1.0, 4.0, 5.0]);
    assert_eq!(sim.get_if(&test_of("NOP", "species", "predator")), Vec::<f32>::new());
}

#[test]
fn two_particles_repel_each_other() {
    let flat = vec![0.0f32, 0.0, 1.0, 0.0];
    let mut sim: Simulation<P, f32> = Simulation::create(flat, 2, vec![repel(1.0, 4.0)]).unwrap();
    let hoods = vec![vec![vec![0, 1]], vec![vec![0, 1]]];
    let plans = sim.step(&hoods);
    assert_eq!(plans.len(), 2);
    for m in &plans {
        assert!(!m.from_rest);
        assert_eq!(m.pushes, vec![Push::Away((1.0, 4.0))]);
    }
}

#[test]
fn step_reads_tags_from_before_the_step() {
    // Particle 0 is marked when a neighbour is a predator; particle 1 turns
    // into a predator in the same step, which particle 0 must not see yet.
    let mark = Node {
        kind: Kind::Collide,
        params: (0.0, 1.0),
        test: Some(test_of("==", "species", "predator")),
        key: None,
        value: None,
        slot: 0,
        children: vec![assign("state", "hunted", 1)],
    };
    let tree = vec![mark, assign("species", "predator", 2)];
    let mut sim: Simulation<P, f32> = Simulation::create(vec![0.0, 0.0, 0.5, 0.0], 2, tree).unwrap();
    let hoods = vec![vec![vec![1]], vec![vec![0]]];
    sim.step(&hoods);
    assert_eq!(sim.tag(0, &"state".to_string()), Ok(String::new()));
    assert_eq!(sim.tag(0, &"species".to_string()), Ok("predator".to_string()));
    sim.step(&hoods);
    assert_eq!(sim.tag(0, &"state".to_string()), Ok("hunted".to_string()));
}

#[test]
fn permuted_store_gives_permuted_results() {
    let mark = Node {
        kind: Kind::Collide,
        params: (0.0, 1.0),
        test: Some(test_of("==", "species", "predator")),
        key: None,
        value: None,
        slot: 0,
        children: vec![assign("state", "hunted", 1), Node { kind: Kind::Stop, params: (0.0, 0.0), test: None, key: None, value: None, slot: 2, children: vec![] }],
    };
    let mut a: Simulation<P, f32> = Simulation::create(vec![0.0, 0.0, 1.0, 0.0, 5.0, 5.0], 2, vec![repel(1.0, 2.0), mark]).unwrap();
    a.set_meta(1, "species".to_string(), "predator".to_string()).unwrap();
    // b holds a's particles in the order 2, 0, 1.
    let mark_b = a.behaviours()[1].children.len();
    assert_eq!(mark_b, 2);
    let mut b: Simulation<P, f32> = Simulation::create(vec![5.0, 5.0, 0.0, 0.0, 1.0, 0.0], 2, vec![
        repel(1.0, 2.0),
        Node {
            kind: Kind::Collide,
            params: (0.0, 1.0),
            test: Some(test_of("==", "species", "predator")),
            key: None,
            value: None,
            slot: 0,
            children: vec![assign("state", "hunted", 1), Node { kind: Kind::Stop, params: (0.0, 0.0), test: None, key: None, value: None, slot: 2, children: vec![] }],
        },
    ]).unwrap();
    b.set_meta(2, "species".to_string(), "predator".to_string()).unwrap();
    let plans_a = a.step(&vec![vec![vec![0, 1]], vec![vec![0, 1]], vec![vec![2]]]);
    let plans_b = b.step(&vec![vec![vec![0]], vec![vec![1, 2]], vec![vec![1, 2]]]);
    let perm = [2usize, 0, 1];
    for k in 0..3 {
        assert_eq!(plans_b[k].from_rest, plans_a[perm[k]].from_rest);
        assert_eq!(plans_b[k].pushes, plans_a[perm[k]].pushes);
        assert_eq!(b.tag(k, &"state".to_string()), a.tag(perm[k], &"state".to_string()));
    }
    assert_eq!(a.tag(0, &"state".to_string()), Ok("hunted".to_string()));
    assert!(plans_a[0].from_rest);
    assert!(!plans_a[2].from_rest);
}

#[test]
fn replace_and_set_positions() {
    let mut sim: Simulation<P, f32> = Simulation::create(vec![0.0, 0.0, 1.0, 1.0], 2, vec![]).unwrap();
    sim.replace_behaviors(vec![repel(2.0, 1.0)]);
    assert_eq!(sim.behaviours().len(), 1);
    assert_eq!(sim.set_positions(vec![1.0, 2.0, 3.0]), Err(SimError::DimensionalityMismatch));
    assert_eq!(sim.get(), vec![0.0, 0.0, 1.0, 1.0]);
    assert_eq!(sim.set_positions(vec![1.0, 2.0, 3.0, 4.0]), Ok(()));
    assert_eq!(sim.get(), vec![1.0, 2.0, 3.0, 4.0]);
}
