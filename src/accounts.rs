//! Users, vehicles and the decisions of the account, join and pairing flows.
//!
//! Store lookups arrive as [`Lookup`] values; each decision returns either what to
//! do next or the HTTP reply that ends the request.

use crate::endpoint::WsConn;
use crate::json::{json_string, json_text};
use crate::lobby::{strings_contain, strings_without};
use crate::messages::{Sender, SenderView};
use crate::model::{lemma_without, without};
use vstd::prelude::*;

verus! {

/// A user account; ids are the store's object ids in hex.
#[derive(Debug)]
pub struct User {
    pub id: Option<String>,
    pub name: String,
    pub username: String,
    pub password: String,
    pub email: String,
    /// The vehicles the user is paired with, most recent first.
    pub vehicles: Vec<String>,
}

/// A registered vehicle.
#[derive(Debug)]
pub struct Vehicle {
    pub id: String,
    pub company: String,
    pub model: String,
}

/// The result of looking a record up in the store.
#[derive(Debug)]
pub enum Lookup<T> {
    Found(T),
    Missing,
    /// The store failed; the text describes the error.
    Failed(String),
}

/// An HTTP reply that ends a request.
#[derive(Debug)]
pub struct Reply {
    pub status: u16,
    pub body: String,
}

/// `{"error": e}`.
pub open spec fn error_json(e: Seq<char>) -> Seq<char> {
    "{\"error\":"@ + json_text(e) + "}"@
}

/// `{"error": e, key: v}`.
pub open spec fn error_json_with(e: Seq<char>, key: Seq<char>, v: Seq<char>) -> Seq<char> {
    "{\"error\":"@ + json_text(e) + ",\""@ + key + "\":"@ + json_text(v) + "}"@
}

pub open spec fn is_reply(r: Reply, status: u16, body: Seq<char>) -> bool {
    r.status == status && r.body@ == body
}

/// Relies on uuid's `Uuid::new_v4` and its `Display`, the hyphenated form of
/// `Hyphenated::LENGTH`, 36, characters.
#[verifier::external_body]
fn new_connection_id() -> (r: String)
    ensures
        r@.len() == 36,
{
    uuid::Uuid::new_v4().to_string()
}

fn error_body(e: &str) -> (r: String)
    ensures
        r@ == error_json(e@),
{
    let mut out = String::from_str("{\"error\":");
    out.append(json_string(e).as_str());
    out.append("}");
    out
}

fn error_body_with(e: &str, key: &str, v: &str) -> (r: String)
    ensures
        r@ == error_json_with(e@, key@, v@),
{
    let mut out = String::from_str("{\"error\":");
    out.append(json_string(e).as_str());
    out.append(",\"");
    out.append(key);
    out.append("\":");
    out.append(json_string(v).as_str());
    out.append("}");
    out
}

fn reply(status: u16, body: String) -> (r: Reply)
    ensures
        r.status == status,
        r.body@ == body@,
{
    Reply { status, body }
}

/// A vehicle joins its own room as the room's admin.
pub fn join_vehicle(found: Lookup<Vehicle>, now_ms: u64) -> (r: Result<WsConn, Reply>)
    ensures
        match found {
            Lookup::Found(v) => r matches Ok(c) && c.room@ == v.id@ && c.sender@
                == SenderView::Admin && c.hb == now_ms && c.id@.len() == 36,
            Lookup::Missing => r matches Err(e) && is_reply(
                e,
                404,
                error_json(
                    "There is no vehicle with the supplied ID. Consider registering it first at /vehicle/register."@,
                ),
            ),
            Lookup::Failed(_) => r matches Err(e) && is_reply(
                e,
                500,
                error_json(
                    "The server had an error trying to execute mongodb::Collection.insert_one()"@,
                ),
            ),
        },
{
    match found {
        Lookup::Found(v) => Ok(WsConn::new(v.id, new_connection_id(), Sender::Admin, now_ms)),
        Lookup::Missing => Err(
            reply(
                404,
                error_body(
                    "There is no vehicle with the supplied ID. Consider registering it first at /vehicle/register.",
                ),
            ),
        ),
        Lookup::Failed(_) => Err(
            reply(
                500,
                error_body(
                    "The server had an error trying to execute mongodb::Collection.insert_one()",
                ),
            ),
        ),
    }
}

/// User `uid` joins the room of vehicle `vid`, which it must be paired with. The
/// vehicle's lookup is read only when the user was found.
pub fn join_user(
    uid: String,
    vid: String,
    user: Lookup<User>,
    vehicle: Lookup<Vehicle>,
    now_ms: u64,
) -> (r: Result<WsConn, Reply>)
    ensures
        match (user, vehicle) {
            (Lookup::Failed(_), _) | (Lookup::Found(_), Lookup::Failed(_)) => r matches Err(e)
                && is_reply(
                e,
                500,
                error_json(
                    "The server had an error trying to execute mongodb::Collection.find_one()"@,
                ),
            ),
            (Lookup::Missing, _) => r matches Err(e) && is_reply(
                e,
                404,
                error_json(
                    "There is no user with the supplied ID. Consider signing up first."@,
                ),
            ),
            (Lookup::Found(_), Lookup::Missing) => r matches Err(e) && is_reply(
                e,
                404,
                error_json(
                    "There is no vehicle with the supplied ID. Consider registering it first."@,
                ),
            ),
            (Lookup::Found(u), Lookup::Found(v)) => if u.vehicles.deep_view().contains(v.id@) {
                r matches Ok(c) && c.room@ == vid@ && c.sender@ == SenderView::Client(uid@)
                    && c.hb == now_ms && c.id@.len() == 36
            } else {
                r matches Err(e) && is_reply(
                    e,
                    401,
                    error_json(
                        "This user has no access to the vehicle. Securely link it first."@,
                    ),
                )
            },
        },
{
    match user {
        Lookup::Failed(_) => Err(
            reply(
                500,
                error_body(
                    "The server had an error trying to execute mongodb::Collection.find_one()",
                ),
            ),
        ),
        Lookup::Missing => Err(
            reply(
                404,
                error_body("There is no user with the supplied ID. Consider signing up first."),
            ),
        ),
        Lookup::Found(u) => match vehicle {
            Lookup::Failed(_) => Err(
                reply(
                    500,
                    error_body(
                        "The server had an error trying to execute mongodb::Collection.find_one()",
                    ),
                ),
            ),
            Lookup::Missing => Err(
                reply(
                    404,
                    error_body(
                        "There is no vehicle with the supplied ID. Consider registering it first.",
                    ),
                ),
            ),
            Lookup::Found(v) => {
                if strings_contain(&u.vehicles, &v.id) {
                    Ok(WsConn::new(vid, new_connection_id(), Sender::Client(uid), now_ms))
                } else {
                    Err(
                        reply(
                            401,
                            error_body(
                                "This user has no access to the vehicle. Securely link it first.",
                            ),
                        ),
                    )
                }
            },
        },
    }
}

/// The user's vehicles after pairing with `vid`: `vid` first, then the others in
/// their previous order.
pub open spec fn paired_list(vehicles: Seq<Seq<char>>, vid: Seq<char>) -> Seq<Seq<char>> {
    seq![vid] + without(vehicles, vid)
}

/// What a pairing that passed its checks persists: the user and its new vehicle list.
#[derive(Debug)]
pub struct PairPlan {
    pub user: User,
    pub vehicles: Vec<String>,
}

pub open spec fn store_error_text() -> Seq<char> {
    "There was an error trying to execute mongodb::collection.find_one()"@
}

/// The checks of a pairing of a user with a vehicle: the user must exist, the
/// vehicle's lookup must not fail, a first-use code must not rebind a vehicle that
/// some user already has (a failed count counts as bound), and the vehicle must exist.
pub fn pair_check(
    initial: bool,
    user: Lookup<User>,
    vehicle: Lookup<Vehicle>,
    in_use: Result<bool, String>,
) -> (r: Result<PairPlan, Reply>)
    ensures
        match user {
            Lookup::Failed(e) => r matches Err(x) && is_reply(
                x,
                500,
                error_json_with(store_error_text(), "stacktrace"@, e@),
            ),
            Lookup::Missing => r matches Err(x) && is_reply(
                x,
                404,
                error_json_with(
                    "There is no user with the specified ID."@,
                    "suggestion"@,
                    "Sign up the user at /signup"@,
                ),
            ),
            Lookup::Found(u) => match vehicle {
                Lookup::Failed(e) => r matches Err(x) && is_reply(
                    x,
                    500,
                    error_json_with(store_error_text(), "stacktrace"@, e@),
                ),
                _ => if initial && (in_use matches Ok(b) ==> b) {
                    r matches Err(x) && is_reply(
                        x,
                        401,
                        error_json_with(
                            "This code has expired"@,
                            "suggestion"@,
                            "Use the code generated by the app."@,
                        ),
                    )
                } else {
                    match vehicle {
                        Lookup::Found(v) => r matches Ok(p) && p.user == u
                            && p.vehicles.deep_view() == paired_list(
                            u.vehicles.deep_view(),
                            v.id@,
                        ),
                        _ => r matches Err(x) && is_reply(
                            x,
                            404,
                            error_json_with(
                                "There is no vehicle with the specified ID."@,
                                "suggestion"@,
                                "Register the vehicle at /vehicle/register"@,
                            ),
                        ),
                    }
                },
            },
        },
{
    match user {
        Lookup::Failed(e) => Err(
            reply(
                500,
                error_body_with(
                    "There was an error trying to execute mongodb::collection.find_one()",
                    "stacktrace",
                    e.as_str(),
                ),
            ),
        ),
        Lookup::Missing => Err(
            reply(
                404,
                error_body_with(
                    "There is no user with the specified ID.",
                    "suggestion",
                    "Sign up the user at /signup",
                ),
            ),
        ),
        Lookup::Found(u) => {
            if let Lookup::Failed(e) = &vehicle {
                return Err(
                    reply(
                        500,
                        error_body_with(
                            "There was an error trying to execute mongodb::collection.find_one()",
                            "stacktrace",
                            e.as_str(),
                        ),
                    ),
                );
            }
            let bound = match in_use {
                Ok(b) => b,
                Err(_) => true,
            };
            if initial && bound {
                return Err(
                    reply(
                        401,
                        error_body_with(
                            "This code has expired",
                            "suggestion",
                            "Use the code generated by the app.",
                        ),
                    ),
                );
            }
            match vehicle {
                Lookup::Found(v) => {
                    let vehicles = pair_vehicle(&u.vehicles, &v.id);
                    Ok(PairPlan { user: u, vehicles })
                },
                _ => Err(
                    reply(
                        404,
                        error_body_with(
                            "There is no vehicle with the specified ID.",
                            "suggestion",
                            "Register the vehicle at /vehicle/register",
                        ),
                    ),
                ),
            }
        },
    }
}

/// Puts `vid` first in `vehicles`, keeping the other entries in order.
pub fn pair_vehicle(vehicles: &Vec<String>, vid: &String) -> (r: Vec<String>)
    ensures
        r.deep_view() == paired_list(vehicles.deep_view(), vid@),
{
    let rest = strings_without(vehicles, vid);
    let mut out: Vec<String> = Vec::new();
    out.push(vid.clone());
    let mut i: usize = 0;
    while i < rest.len()
        invariant
            i <= rest.len(),
            out.deep_view() == seq![vid@] + rest.deep_view().take(i as int),
        decreases rest.len() - i,
    {
        let ghost prev = out.deep_view();
        out.push(rest[i].clone());
        assert(out.deep_view() =~= prev.push(rest.deep_view()[i as int]));
        assert(rest.deep_view().take(i as int + 1) =~= rest.deep_view().take(i as int).push(
            rest.deep_view()[i as int],
        ));
        assert(out.deep_view() =~= seq![vid@] + rest.deep_view().take(i as int + 1));
        i = i + 1;
    }
    assert(rest.deep_view().take(i as int) =~= rest.deep_view());
    out
}

/// Pairing again with the same vehicle changes nothing, the vehicle stands first,
/// and it stands in the list once.
pub proof fn pairing_is_idempotent(vehicles: Seq<Seq<char>>, vid: Seq<char>)
    ensures
        paired_list(paired_list(vehicles, vid), vid) == paired_list(vehicles, vid),
        paired_list(vehicles, vid)[0] == vid,
        forall|k: int|
            1 <= k < paired_list(vehicles, vid).len() ==> #[trigger] paired_list(vehicles, vid)[k]
                != vid,
        vehicles.no_duplicates() ==> paired_list(vehicles, vid).no_duplicates(),
{
    let once = paired_list(vehicles, vid);
    let rest = without(vehicles, vid);
    lemma_without(vehicles, vid);
    lemma_without(rest, vid);
    assert(!rest.contains(vid));
    assert(once.last() == vid || once.len() > 1);
    assert(once =~= seq![vid] + rest);
    lemma_without_cons(vid, rest);
    assert forall|k: int| 1 <= k < once.len() implies #[trigger] once[k] != vid by {
        assert(once[k] == rest[k - 1]);
        assert(rest.contains(rest[k - 1]));
    }
    if vehicles.no_duplicates() {
        assert forall|a: int, b: int| 0 <= a < once.len() && 0 <= b < once.len() && a != b implies once[a] != once[b] by {
            if a > 0 && b > 0 {
                assert(once[a] == rest[a - 1]);
                assert(once[b] == rest[b - 1]);
            } else if a == 0 {
                assert(once[b] != vid);
            } else {
                assert(once[a] != vid);
            }
        }
    }
}

/// Dropping `x` from a list that starts with `x` drops its head, when `x` is not
/// in the rest.
proof fn lemma_without_cons(x: Seq<char>, rest: Seq<Seq<char>>)
    requires
        !rest.contains(x),
    ensures
        without(seq![x] + rest, x) == rest,
    decreases rest.len(),
{
    if rest.len() == 0 {
        assert(seq![x] + rest =~= seq![x]);
        assert(seq![x].drop_last() =~= Seq::<Seq<char>>::empty());
        assert(without(seq![x], x) == without(seq![x].drop_last(), x));
        assert(without(Seq::<Seq<char>>::empty(), x) == Seq::<Seq<char>>::empty());
        assert(rest =~= Seq::<Seq<char>>::empty());
    } else {
        let init = rest.drop_last();
        assert(!init.contains(x)) by {
            if init.contains(x) {
                let k = choose|k: int| 0 <= k < init.len() && init[k] == x;
                assert(rest[k] == x);
            }
        }
        lemma_without_cons(x, init);
        assert((seq![x] + rest).drop_last() =~= seq![x] + init);
        assert(rest.last() == rest[rest.len() - 1]);
        assert(rest.contains(rest[rest.len() - 1]));
        assert(rest.last() != x);
        assert((seq![x] + rest).last() == rest.last());
        assert(rest =~= init.push(rest.last()));
    }
}

/// The outcome text of persisting a pairing: the count of modified records, or the
/// store's error text.
pub open spec fn pair_outcome_text(persisted: Result<u64, Seq<char>>) -> Seq<char> {
    match persisted {
        Ok(n) => if n > 0 {
            "Pair successful"@
        } else {
            "Database had an unknown error"@
        },
        Err(d) => "Database reported an error: "@ + d,
    }
}

/// The confirmation that a pairing endpoint carries to the vehicle.
pub open spec fn pair_payload_text(outcome: Seq<char>, uid: Seq<char>, vid: Seq<char>) -> Seq<
    char,
> {
    "{\"message\":"@ + json_text(outcome) + ",\"uid\":"@ + json_text(uid) + ",\"vid\":"@
        + json_text(vid) + "}"@
}

/// The transient endpoint that delivers the outcome of a pairing of user `uid` with
/// vehicle `vid` to the vehicle, and then closes.
pub fn pair_confirmation(persisted: Result<u64, String>, uid: &str, vid: &str, now_ms: u64) -> (r:
    WsConn)
    ensures
        r.room@ == vid@,
        r.hb == now_ms,
        r.id@.len() == 36,
        r.sender@ == SenderView::Pair(
            pair_payload_text(
                pair_outcome_text(
                    match persisted {
                        Ok(n) => Ok(n),
                        Err(d) => Err(d@),
                    },
                ),
                uid@,
                vid@,
            ),
        ),
{
    let outcome = match persisted {
        Ok(n) => if n > 0 {
            String::from_str("Pair successful")
        } else {
            String::from_str("Database had an unknown error")
        },
        Err(d) => {
            let mut t = String::from_str("Database reported an error: ");
            t.append(d.as_str());
            t
        },
    };
    let mut payload = String::from_str("{\"message\":");
    payload.append(json_string(outcome.as_str()).as_str());
    payload.append(",\"uid\":");
    payload.append(json_string(uid).as_str());
    payload.append(",\"vid\":");
    payload.append(json_string(vid).as_str());
    payload.append("}");
    WsConn::new(String::from_str(vid), new_connection_id(), Sender::Pair(payload), now_ms)
}

pub open spec fn lookup_error_text() -> Seq<char> {
    "Error when trying to execute mongodb::Collection.find_one()"@
}

/// The checks of a signup: no user may hold the email, then no user the username.
/// `None` means the new user may be stored.
pub fn signup_check(by_email: Lookup<User>, by_username: Lookup<User>) -> (r: Option<Reply>)
    ensures
        match by_email {
            Lookup::Failed(_) => r matches Some(x) && is_reply(x, 500, lookup_error_text()),
            Lookup::Found(d) => r matches Some(x) && is_reply(
                x,
                409,
                error_json("Another user already exists with the email "@ + d.email@),
            ),
            Lookup::Missing => match by_username {
                Lookup::Failed(_) => r matches Some(x) && is_reply(x, 500, lookup_error_text()),
                Lookup::Found(d) => r matches Some(x) && is_reply(
                    x,
                    409,
                    error_json("Another user already exists with the username "@ + d.username@),
                ),
                Lookup::Missing => r is None,
            },
        },
{
    match by_email {
        Lookup::Failed(_) => Some(
            reply(500, String::from_str("Error when trying to execute mongodb::Collection.find_one()")),
        ),
        Lookup::Found(d) => {
            let mut t = String::from_str("Another user already exists with the email ");
            t.append(d.email.as_str());
            Some(reply(409, error_body(t.as_str())))
        },
        Lookup::Missing => match by_username {
            Lookup::Failed(_) => Some(
                reply(
                    500,
                    String::from_str("Error when trying to execute mongodb::Collection.find_one()"),
                ),
            ),
            Lookup::Found(d) => {
                let mut t = String::from_str("Another user already exists with the username ");
                t.append(d.username.as_str());
                Some(reply(409, error_body(t.as_str())))
            },
            Lookup::Missing => None,
        },
    }
}

/// The checks of a login: the user must exist and the password must match.
pub fn login_check(found: Lookup<User>, password: &String) -> (r: Result<User, Reply>)
    ensures
        match found {
            Lookup::Failed(_) => r matches Err(x) && is_reply(
                x,
                500,
                error_json("There was an error when trying to execute mongodb::collection.find_one()"@),
            ),
            Lookup::Missing => r matches Err(x) && is_reply(
                x,
                404,
                error_json("User with this username wasn't found on this server"@),
            ),
            Lookup::Found(u) => if u.password@ == password@ {
                r matches Ok(v) && v == u
            } else {
                r matches Err(x) && is_reply(x, 401, error_json("Wrong credentials"@))
            },
        },
{
    match found {
        Lookup::Failed(_) => Err(
            reply(
                500,
                error_body(
                    "There was an error when trying to execute mongodb::collection.find_one()",
                ),
            ),
        ),
        Lookup::Missing => Err(
            reply(404, error_body("User with this username wasn't found on this server")),
        ),
        Lookup::Found(u) => {
            if u.password == *password {
                Ok(u)
            } else {
                Err(reply(401, error_body("Wrong credentials")))
            }
        },
    }
}

/// The check of a vehicle refresh: the user must exist.
pub fn refresh_check(found: Lookup<User>) -> (r: Result<User, Reply>)
    ensures
        match found {
            Lookup::Failed(_) => r matches Err(x) && is_reply(
                x,
                500,
                error_json("There was an error when trying to execute mongodb::collection.find_one()"@),
            ),
            Lookup::Missing => r matches Err(x) && is_reply(
                x,
                404,
                error_json("User with this ID wasn't found on this server"@),
            ),
            Lookup::Found(u) => r matches Ok(v) && v == u,
        },
{
    match found {
        Lookup::Failed(_) => Err(
            reply(
                500,
                error_body(
                    "There was an error when trying to execute mongodb::collection.find_one()",
                ),
            ),
        ),
        Lookup::Missing => Err(reply(404, error_body("User with this ID wasn't found on this server"))),
        Lookup::Found(u) => Ok(u),
    }
}

} // verus!
