use mtui::api::{
    bound_port, health_status, plan_write, read_status, reconcile_server, write_status,
    ApiWritePlan, ServerAction, HTTP_BAD_GATEWAY, HTTP_BAD_REQUEST, HTTP_FORBIDDEN,
    HTTP_NO_CONTENT, HTTP_OK, HTTP_SERVICE_UNAVAILABLE,
};
use mtui::register::RegisterType::{Coil, Discrete, Holding, Input};

#[test]
fn writes_are_refused_in_order() {
    let v = vec![1, 0, 5];
    assert_eq!(plan_write(true, Holding, true, &v), ApiWritePlan::Refused(403));
    assert_eq!(plan_write(false, Input, true, &v), ApiWritePlan::Refused(400));
    assert_eq!(plan_write(false, Discrete, false, &v), ApiWritePlan::Refused(HTTP_BAD_REQUEST));
    assert_eq!(plan_write(false, Coil, false, &v), ApiWritePlan::Refused(503));
    assert_eq!(plan_write(true, Input, false, &v), ApiWritePlan::Refused(HTTP_FORBIDDEN));
}

#[test]
fn coil_writes_turn_values_into_states() {
    let v = vec![1, 0, 5];
    assert_eq!(plan_write(false, Coil, true, &v), ApiWritePlan::Coils(vec![true, false, true]));
    assert_eq!(plan_write(false, Holding, true, &v), ApiWritePlan::Registers(vec![1, 0, 5]));
}

#[test]
fn answers_follow_the_outcome() {
    assert_eq!(write_status(true), HTTP_NO_CONTENT);
    assert_eq!(write_status(false), HTTP_BAD_GATEWAY);
    assert_eq!(read_status(false, true), HTTP_SERVICE_UNAVAILABLE);
    assert_eq!(read_status(true, true), HTTP_OK);
    assert_eq!(read_status(true, false), 502);
}

#[test]
fn health_needs_a_device_and_a_serving_connection() {
    assert_eq!(health_status(true, 0), 200);
    assert_eq!(health_status(true, 2), 200);
    assert_eq!(health_status(true, 3), 503);
    assert_eq!(health_status(true, 4), 503);
    assert_eq!(health_status(false, 2), 503);
}

#[test]
fn port_zero_means_not_bound() {
    assert_eq!(bound_port(0), None);
    assert_eq!(bound_port(8080), Some(8080));
}

#[test]
fn the_server_restarts_only_when_the_port_changes() {
    assert_eq!(reconcile_server(Some(80), Some(80)), ServerAction::Keep);
    assert_eq!(reconcile_server(None, None), ServerAction::Keep);
    assert_eq!(reconcile_server(Some(81), Some(80)), ServerAction::Restart(Some(81)));
    assert_eq!(reconcile_server(None, Some(80)), ServerAction::Restart(None));
    assert_eq!(reconcile_server(Some(80), None), ServerAction::Restart(Some(80)));
}
