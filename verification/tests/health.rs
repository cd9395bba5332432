use reliakit::health::{aggregate, Check, Criticality, Health};

#[test]
fn builder_sets_fields() {
    let c = Check::new("db", Health::Degraded).optional().with_detail("slow");
    assert_eq!(c.name, "db");
    assert_eq!(c.status, Health::Degraded);
    assert_eq!(c.criticality, Criticality::Optional);
    assert_eq!(c.detail, Some("slow"));
}

#[test]
fn effective_applies_criticality() {
    assert_eq!(
        Check::new("x", Health::Unhealthy).critical().effective(),
        Health::Unhealthy
    );
    assert_eq!(
        Check::new("x", Health::Unhealthy).optional().effective(),
        Health::Degraded
    );
}

#[test]
fn aggregate_empty_is_healthy() {
    let none: [Check; 0] = [];
    assert_eq!(aggregate(&none), Health::Healthy);
}

#[test]
fn aggregate_takes_worst_effective() {
    let checks = [
        Check::new("a", Health::Healthy),
        Check::new("b", Health::Degraded),
        Check::new("c", Health::Healthy),
    ];
    assert_eq!(aggregate(&checks), Health::Degraded);
}

#[test]
fn aggregate_critical_unhealthy_downs_everything() {
    let checks = [Check::new("a", Health::Healthy), Check::new("b", Health::Unhealthy)];
    assert_eq!(aggregate(&checks), Health::Unhealthy);
}

#[test]
fn aggregate_optional_unhealthy_only_degrades() {
    let checks = [
        Check::new("db", Health::Healthy),
        Check::new("cache", Health::Unhealthy).optional(),
    ];
    assert_eq!(aggregate(&checks), Health::Degraded);
}

#[test]
fn aggregate_critical_beats_optional() {
    let checks = [
        Check::new("cache", Health::Unhealthy).optional(),
        Check::new("db", Health::Unhealthy).critical(),
    ];
    assert_eq!(aggregate(&checks), Health::Unhealthy);
}

#[test]
fn worst_and_apply_rank_statuses() {
    assert_eq!(Health::Healthy.worst(Health::Degraded), Health::Degraded);
    assert_eq!(Health::Unhealthy.worst(Health::Degraded), Health::Unhealthy);
    assert_eq!(Criticality::Optional.apply(Health::Degraded), Health::Degraded);
    assert_eq!(Criticality::Critical.apply(Health::Unhealthy), Health::Unhealthy);
}
