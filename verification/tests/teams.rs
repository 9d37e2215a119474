use planetsim::teams::{Aspect, Team, TeamInstance, TeamStatus};

#[test]
fn gain_xp_levels_up_after_three_points() {
    let mut inst = TeamInstance { id: 0, team_id: 1, status: TeamStatus::Ready, level: 0, xp: 0 };
    inst.gain_xp();
    assert_eq!((inst.level, inst.xp), (0, 1));
    inst.gain_xp();
    assert_eq!((inst.level, inst.xp), (0, 2));
    inst.gain_xp();
    assert_eq!((inst.level, inst.xp), (1, 0));
    inst.gain_xp();
    assert_eq!((inst.level, inst.xp), (1, 1));
}

#[test]
fn team_fields_carry_content() {
    let team = Team {
        id: 3,
        name: "Responders".to_string(),
        locked: false,
        default: true,
        aspects: vec![Aspect::Science, Aspect::Logistics],
        establish_cost: 10,
        train_cost: 4,
    };
    assert_eq!(team.aspects.len(), 2);
    assert_eq!(team.name, "Responders");
    assert!(team.default);
}
