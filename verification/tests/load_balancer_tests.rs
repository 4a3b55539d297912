use mem_regions::load_balancer::LoadBalancer;

fn three() -> Vec<String> {
    vec![
        "Server1".to_string(),
        "Server2".to_string(),
        "Server3".to_string(),
    ]
}

#[test]
fn servers_are_handed_out_in_turn() {
    let mut balancer = LoadBalancer::new(three());
    let mut routed = Vec::new();
    for _ in 0..10 {
        routed.push(balancer.get_server());
    }
    assert_eq!(
        routed,
        vec![
            "Server1", "Server2", "Server3", "Server1", "Server2", "Server3", "Server1",
            "Server2", "Server3", "Server1",
        ]
    );
}

#[test]
fn single_server_is_always_picked() {
    let mut balancer = LoadBalancer::new(vec!["only".to_string()]);
    assert_eq!(balancer.get_server(), "only");
    assert_eq!(balancer.get_server(), "only");
    assert_eq!(balancer.get_server(), "only");
}

#[test]
fn server_count_is_the_length_of_the_list() {
    assert_eq!(LoadBalancer::new(three()).server_count(), 3);
    assert_eq!(LoadBalancer::new(Vec::new()).server_count(), 0);
}

#[test]
fn picking_does_not_change_the_list() {
    let mut balancer = LoadBalancer::new(three());
    for _ in 0..7 {
        balancer.get_server();
    }
    assert_eq!(balancer.server_count(), 3);
    assert_eq!(balancer.get_server(), "Server2");
}
