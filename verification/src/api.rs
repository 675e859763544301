//! The decisions of the HTTP API: which status a request is answered with,
//! and what a write sends to the device. The server itself, which listens,
//! parses JSON and talks to the device, runs around these functions.
use vstd::prelude::*;
use crate::register::RegisterType;
use crate::state::ConnectionStatus;

verus! {

/// `200 OK`
pub const HTTP_OK: u16 = 200;

/// `204 No Content`
pub const HTTP_NO_CONTENT: u16 = 204;

/// `400 Bad Request`
pub const HTTP_BAD_REQUEST: u16 = 400;

/// `403 Forbidden`
pub const HTTP_FORBIDDEN: u16 = 403;

/// `502 Bad Gateway`
pub const HTTP_BAD_GATEWAY: u16 = 502;

/// `503 Service Unavailable`
pub const HTTP_SERVICE_UNAVAILABLE: u16 = 503;

/// What a write request leads to: an answer at once, or a write of coils
/// or of registers.
#[derive(Debug, Clone, PartialEq)]
pub enum ApiWritePlan {
    Refused(u16),
    Coils(Vec<bool>),
    Registers(Vec<u16>),
}

/// Each requested value as a coil state: on where it is not zero.
pub open spec fn coil_states(values: Seq<u16>) -> Seq<bool> {
    values.map_values(|v: u16| v != 0)
}

/// Decides a write request: refused while the application is read-only,
/// refused for a type that cannot be written, unavailable without a device;
/// else coils take each value as on or off, and registers take the values.
pub fn plan_write(read_only: bool, register_type: RegisterType, device_present: bool, values: &Vec<u16>) -> (r: ApiWritePlan)
    ensures
        read_only ==> r == ApiWritePlan::Refused(HTTP_FORBIDDEN),
        !read_only && !(register_type == RegisterType::Holding || register_type == RegisterType::Coil) ==> r == ApiWritePlan::Refused(HTTP_BAD_REQUEST),
        !read_only && (register_type == RegisterType::Holding || register_type == RegisterType::Coil) && !device_present ==> r == ApiWritePlan::Refused(
            HTTP_SERVICE_UNAVAILABLE,
        ),
        !read_only && device_present && register_type == RegisterType::Coil ==> (r matches ApiWritePlan::Coils(c)
            && c@ == coil_states(values@)),
        !read_only && device_present && register_type == RegisterType::Holding ==> (r matches ApiWritePlan::Registers(
            v,
        ) && v@ == values@),
{
    if read_only {
        return ApiWritePlan::Refused(HTTP_FORBIDDEN);
    }
    if !register_type.is_writable() {
        return ApiWritePlan::Refused(HTTP_BAD_REQUEST);
    }
    if !device_present {
        return ApiWritePlan::Refused(HTTP_SERVICE_UNAVAILABLE);
    }
    match register_type {
        RegisterType::Coil => {
            let mut coils: Vec<bool> = Vec::new();
            let mut i: usize = 0;
            while i < values.len()
                invariant
                    i <= values.len(),
                    coils@ == coil_states(values@.take(i as int)),
                decreases values.len() - i,
            {
                coils.push(values[i] != 0);
                i += 1;
                proof {
                    assert(values@.take(i as int) == values@.take(i - 1).push(values@[i - 1]));
                }
            }
            assert(values@.take(values.len() as int) == values@);
            ApiWritePlan::Coils(coils)
        },
        _ => {
            let mut copy: Vec<u16> = Vec::new();
            let mut i: usize = 0;
            while i < values.len()
                invariant
                    i <= values.len(),
                    copy@ == values@.take(i as int),
                decreases values.len() - i,
            {
                copy.push(values[i]);
                i += 1;
                proof {
                    assert(values@.take(i as int) == values@.take(i - 1).push(values@[i - 1]));
                }
            }
            assert(values@.take(values.len() as int) == values@);
            ApiWritePlan::Registers(copy)
        },
    }
}

/// The answer to a write that reached the device: no content when it
/// succeeded, a bad gateway when the device refused it.
pub fn write_status(succeeded: bool) -> (r: u16)
    ensures
        r == (if succeeded { HTTP_NO_CONTENT } else { HTTP_BAD_GATEWAY }),
{
    if succeeded {
        HTTP_NO_CONTENT
    } else {
        HTTP_BAD_GATEWAY
    }
}

/// The answer to a read: unavailable without a device; else the values when
/// the device answered, a bad gateway when it did not.
pub fn read_status(device_present: bool, succeeded: bool) -> (r: u16)
    ensures
        !device_present ==> r == HTTP_SERVICE_UNAVAILABLE,
        device_present && succeeded ==> r == HTTP_OK,
        device_present && !succeeded ==> r == HTTP_BAD_GATEWAY,
{
    if !device_present {
        HTTP_SERVICE_UNAVAILABLE
    } else if succeeded {
        HTTP_OK
    } else {
        HTTP_BAD_GATEWAY
    }
}

/// The answer to a health check: healthy only with a device and a
/// connection in a serving state.
pub fn health_status(device_present: bool, status_code: u8) -> (r: u16)
    ensures
        r == (if device_present && status_code <= 2 { HTTP_OK } else { HTTP_SERVICE_UNAVAILABLE }),
{
    if device_present && ConnectionStatus::code_serving(status_code) {
        HTTP_OK
    } else {
        HTTP_SERVICE_UNAVAILABLE
    }
}

/// The port the server is bound to, where the stored port is not zero.
pub fn bound_port(stored: u16) -> (r: Option<u16>)
    ensures
        r == (if stored == 0 { None } else { Some(stored) }),
{
    if stored == 0 {
        None
    } else {
        Some(stored)
    }
}

/// What reconciling the API server does: nothing while it runs on the
/// wanted port (or none runs and none is wanted); else it stops the server
/// and starts one on the wanted port, if any.
#[derive(Debug, Clone, Copy, PartialEq, Eq, Structural)]
pub enum ServerAction {
    Keep,
    Restart(Option<u16>),
}

/// Compares the port the settings ask for with the one the server runs on.
pub fn reconcile_server(desired: Option<u16>, running: Option<u16>) -> (r: ServerAction)
    ensures
        desired == running ==> r == ServerAction::Keep,
        desired != running ==> r == ServerAction::Restart(desired),
{
    let same = match (desired, running) {
        (Some(a), Some(b)) => a == b,
        (None, None) => true,
        _ => false,
    };
    if same {
        ServerAction::Keep
    } else {
        ServerAction::Restart(desired)
    }
}

} // verus!
