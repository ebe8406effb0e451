use alpadrive::accounts::{
    join_user, join_vehicle, login_check, pair_check, pair_confirmation, pair_vehicle,
    refresh_check, signup_check, Lookup, User, Vehicle,
};
use alpadrive::messages::Sender;

fn user(vehicles: &[&str]) -> User {
    User {
        id: Some("u9".to_string()),
        name: "Ann".to_string(),
        username: "ann".to_string(),
        password: "pw".to_string(),
        email: "ann@example.com".to_string(),
        vehicles: vehicles.iter().map(|v| v.to_string()).collect(),
    }
}

fn vehicle(id: &str) -> Vehicle {
    Vehicle { id: id.to_string(), company: "Acme".to_string(), model: "R1".to_string() }
}

#[test]
fn pair_with_expired_code() {
    let r = pair_check(true, Lookup::Found(user(&[])), Lookup::Found(vehicle("v1")), Ok(true));
    let reply = r.unwrap_err();
    assert_eq!(reply.status, 401);
    assert!(reply.body.contains("\"This code has expired\""));
    assert_eq!(
        reply.body,
        r#"{"error":"This code has expired","suggestion":"Use the code generated by the app."}"#
    );
}

#[test]
fn failed_count_counts_as_bound() {
    let r = pair_check(true, Lookup::Found(user(&[])), Lookup::Found(vehicle("v1")), Err("down".to_string()));
    assert_eq!(r.unwrap_err().status, 401);
}

#[test]
fn repeat_pairing_is_allowed_and_idempotent() {
    let first = pair_check(false, Lookup::Found(user(&["v2", "v1", "v3"])), Lookup::Found(vehicle("v1")), Ok(true))
        .unwrap();
    assert_eq!(first.vehicles, vec!["v1", "v2", "v3"]);
    assert_eq!(first.user.username, "ann");
    let again = pair_check(false, Lookup::Found(user(&["v1", "v2", "v3"])), Lookup::Found(vehicle("v1")), Ok(true))
        .unwrap();
    assert_eq!(again.vehicles, first.vehicles);
    let fresh = pair_check(true, Lookup::Found(user(&["v2"])), Lookup::Found(vehicle("v1")), Ok(false)).unwrap();
    assert_eq!(fresh.vehicles, vec!["v1", "v2"]);
}

#[test]
fn pair_vehicle_puts_it_first_once() {
    let list = vec!["a".to_string(), "b".to_string(), "a".to_string()];
    assert_eq!(pair_vehicle(&list, &"b".to_string()), vec!["b", "a", "a"]);
    assert_eq!(pair_vehicle(&vec![], &"b".to_string()), vec!["b"]);
    let once = pair_vehicle(&list, &"a".to_string());
    assert_eq!(once, vec!["a", "b"]);
    assert_eq!(pair_vehicle(&once, &"a".to_string()), once);
}

#[test]
fn pair_errors() {
    let r = pair_check(false, Lookup::Missing, Lookup::Found(vehicle("v1")), Ok(false)).unwrap_err();
    assert_eq!(r.status, 404);
    assert_eq!(r.body, r#"{"error":"There is no user with the specified ID.","suggestion":"Sign up the user at /signup"}"#);
    let r = pair_check(false, Lookup::Failed("boom".to_string()), Lookup::Missing, Ok(false)).unwrap_err();
    assert_eq!(r.status, 500);
    assert_eq!(r.body, r#"{"error":"There was an error trying to execute mongodb::collection.find_one()","stacktrace":"boom"}"#);
    let r = pair_check(true, Lookup::Found(user(&[])), Lookup::Failed("io".to_string()), Ok(true)).unwrap_err();
    assert_eq!(r.status, 500);
    let r = pair_check(false, Lookup::Found(user(&[])), Lookup::Missing, Ok(false)).unwrap_err();
    assert_eq!(r.status, 404);
    assert_eq!(r.body, r#"{"error":"There is no vehicle with the specified ID.","suggestion":"Register the vehicle at /vehicle/register"}"#);
    // the code check comes before the vehicle's absence
    let r = pair_check(true, Lookup::Found(user(&[])), Lookup::Missing, Ok(true)).unwrap_err();
    assert_eq!(r.status, 401);
}

#[test]
fn pair_confirmation_carries_outcome() {
    let c = pair_confirmation(Ok(1), "u9", "v1", 77);
    assert_eq!(c.room, "v1");
    assert_eq!(c.hb, 77);
    assert_eq!(c.id.len(), 36);
    match &c.sender {
        Sender::Pair(p) => assert_eq!(p, r#"{"message":"Pair successful","uid":"u9","vid":"v1"}"#),
        _ => panic!("pairing endpoint expected"),
    }
    match pair_confirmation(Ok(0), "u9", "v1", 0).sender {
        Sender::Pair(p) => assert_eq!(p, r#"{"message":"Database had an unknown error","uid":"u9","vid":"v1"}"#),
        _ => panic!("pairing endpoint expected"),
    }
    match pair_confirmation(Err("E".to_string()), "u9", "v1", 0).sender {
        Sender::Pair(p) => assert_eq!(p, r#"{"message":"Database reported an error: E","uid":"u9","vid":"v1"}"#),
        _ => panic!("pairing endpoint expected"),
    }
}

#[test]
fn vehicle_joins_its_room() {
    let c = join_vehicle(Lookup::Found(vehicle("v1")), 5).unwrap();
    assert_eq!(c.room, "v1");
    assert!(matches!(c.sender, Sender::Admin));
    assert_eq!(c.id.len(), 36);
    let other = join_vehicle(Lookup::Found(vehicle("v1")), 5).unwrap();
    assert_ne!(c.id, other.id);
    let r = join_vehicle(Lookup::Missing, 5).unwrap_err();
    assert_eq!(r.status, 404);
    assert_eq!(r.body, r#"{"error":"There is no vehicle with the supplied ID. Consider registering it first at /vehicle/register."}"#);
    assert_eq!(join_vehicle(Lookup::Failed("x".to_string()), 5).unwrap_err().status, 500);
}

#[test]
fn user_joins_only_paired_vehicle() {
    let c = join_user("u9".to_string(), "v1".to_string(), Lookup::Found(user(&["v1"])), Lookup::Found(vehicle("v1")), 3)
        .unwrap();
    assert_eq!(c.room, "v1");
    assert!(matches!(c.sender, Sender::Client(ref u) if u == "u9"));
    let r = join_user("u9".to_string(), "v1".to_string(), Lookup::Found(user(&["v2"])), Lookup::Found(vehicle("v1")), 3)
        .unwrap_err();
    assert_eq!(r.status, 401);
    assert_eq!(r.body, r#"{"error":"This user has no access to the vehicle. Securely link it first."}"#);
    let r = join_user("u9".to_string(), "v1".to_string(), Lookup::Missing, Lookup::Missing, 3).unwrap_err();
    assert_eq!(r.status, 404);
    assert_eq!(r.body, r#"{"error":"There is no user with the supplied ID. Consider signing up first."}"#);
    let r = join_user("u9".to_string(), "v1".to_string(), Lookup::Found(user(&[])), Lookup::Missing, 3).unwrap_err();
    assert_eq!(r.status, 404);
    let r = join_user("u9".to_string(), "v1".to_string(), Lookup::Found(user(&[])), Lookup::Failed("x".to_string()), 3)
        .unwrap_err();
    assert_eq!(r.status, 500);
}

#[test]
fn signup_conflicts() {
    let r = signup_check(Lookup::Found(user(&[])), Lookup::Missing).unwrap();
    assert_eq!(r.status, 409);
    assert_eq!(r.body, r#"{"error":"Another user already exists with the email ann@example.com"}"#);
    let r = signup_check(Lookup::Missing, Lookup::Found(user(&[]))).unwrap();
    assert_eq!(r.status, 409);
    assert_eq!(r.body, r#"{"error":"Another user already exists with the username ann"}"#);
    let r = signup_check(Lookup::Failed("x".to_string()), Lookup::Missing).unwrap();
    assert_eq!(r.status, 500);
    assert_eq!(r.body, "Error when trying to execute mongodb::Collection.find_one()");
    assert!(signup_check(Lookup::Missing, Lookup::Missing).is_none());
}

#[test]
fn login_checks_password() {
    assert_eq!(login_check(Lookup::Found(user(&[])), &"pw".to_string()).unwrap().email, "ann@example.com");
    let r = login_check(Lookup::Found(user(&[])), &"nope".to_string()).unwrap_err();
    assert_eq!(r.status, 401);
    assert_eq!(r.body, r#"{"error":"Wrong credentials"}"#);
    assert_eq!(login_check(Lookup::Missing, &"pw".to_string()).unwrap_err().status, 404);
    assert_eq!(login_check(Lookup::Failed("x".to_string()), &"pw".to_string()).unwrap_err().status, 500);
}

#[test]
fn refresh_needs_user() {
    assert!(refresh_check(Lookup::Found(user(&[]))).is_ok());
    let r = refresh_check(Lookup::Missing).unwrap_err();
    assert_eq!(r.status, 404);
    assert_eq!(r.body, r#"{"error":"User with this ID wasn't found on this server"}"#);
    assert_eq!(refresh_check(Lookup::Failed("x".to_string())).unwrap_err().status, 500);
}
