use vstd::prelude::*;
use vstd::string::*;
use crate::numeric::{decimal_text, i64_text, i64_value, lemma_decimal_round_trip, parse_i64};
use crate::parser::{Commands, Request};

verus! {

/// papaya's concurrent hash map, held as an opaque value.
#[verifier::external_type_specification]
#[verifier::external_body]
#[verifier::reject_recursive_types(K)]
#[verifier::reject_recursive_types(V)]
#[verifier::reject_recursive_types(S)]
pub struct ExHashMap<K, V, S>(papaya::HashMap<K, V, S>);

/// papaya's answer to an atomic `compute`: insert, remove, or abort.
#[verifier::external_type_specification]
#[verifier::reject_recursive_types(V)]
#[verifier::reject_recursive_types(T)]
pub struct ExOperation<V, T>(papaya::Operation<V, T>);

/// A command that was read but cannot be carried out.
#[derive(Clone, Copy, Debug, PartialEq, Eq, Structural)]
pub enum ExecError {
    /// `INCR` or `DECR` on a value that is not a 64-bit integer.
    InvalidInput,
}

pub open spec fn exec_message(e: ExecError) -> Seq<char> {
    "-ERROR: Value is not a valid integer"@
}

impl ExecError {
    /// The text that reports this error to the client.
    pub fn message(&self) -> (r: String)
        ensures
            r@ == exec_message(*self),
    {
        "-ERROR: Value is not a valid integer".to_owned()
    }
}

/// Why an arithmetic step leaves an entry as it was.
#[derive(Clone, Copy, Debug, PartialEq, Eq, Structural)]
pub enum StepFailure {
    Missing,
    NotInteger,
    OutOfRange,
}

/// The new text of an entry after adding one (`up`) or subtracting one.
pub open spec fn adjusted(prior: Option<Seq<char>>, up: bool) -> Result<Seq<char>, StepFailure> {
    match prior {
        None => Err(StepFailure::Missing),
        Some(v) => match i64_value(v) {
            None => Err(StepFailure::NotInteger),
            Some(n) => {
                let m = if up {
                    n + 1
                } else {
                    n - 1
                };
                if i64::MIN <= m <= i64::MAX {
                    Ok(decimal_text(m))
                } else {
                    Err(StepFailure::OutOfRange)
                }
            },
        },
    }
}

pub open spec fn ok_reply() -> Seq<char> {
    "+OK\r\n"@
}

pub open spec fn value_reply(v: Seq<char>) -> Seq<char> {
    "+"@ + v + "\r\n"@
}

pub open spec fn not_found(key: Seq<char>) -> Seq<char> {
    "-ERROR: Key \""@ + key + "\" not found\r\n"@
}

pub open spec fn arith_response(key: Seq<char>, a: Result<Seq<char>, StepFailure>) -> Result<
    Seq<char>,
    ExecError,
> {
    match a {
        Ok(t) => Ok(value_reply(t)),
        Err(StepFailure::Missing) => Ok(not_found(key)),
        Err(_) => Err(ExecError::InvalidInput),
    }
}

/// What a command hands the map: the key it touches and, for a write, the
/// new value; for `Adjust`, whether it adds one (`true`) or subtracts one.
pub enum Access {
    Read(String),
    Write(String, String),
    Remove(String),
    Adjust(String, bool),
}

pub ghost enum AccessView {
    Read(Seq<char>),
    Write(Seq<char>, Seq<char>),
    Remove(Seq<char>),
    Adjust(Seq<char>, bool),
}

impl View for Access {
    type V = AccessView;

    open spec fn view(&self) -> AccessView {
        match self {
            Access::Read(k) => AccessView::Read(k@),
            Access::Write(k, v) => AccessView::Write(k@, v@),
            Access::Remove(k) => AccessView::Remove(k@),
            Access::Adjust(k, up) => AccessView::Adjust(k@, *up),
        }
    }
}

/// The map operation of each command: `GET` reads its key, `SET` and
/// `SETEX` write their value, `DEL` removes its key, `INCR` and `DECR`
/// adjust the value of their key by one.
pub open spec fn access_of(req: Request) -> AccessView {
    match req {
        Request::Get { key } => AccessView::Read(key),
        Request::SetValue { key, value } => AccessView::Write(key, value),
        Request::Setex { key, value, .. } => AccessView::Write(key, value),
        Request::Del { key } => AccessView::Remove(key),
        Request::Incr { key } => AccessView::Adjust(key, true),
        Request::Decr { key } => AccessView::Adjust(key, false),
    }
}

/// The key that a map operation touches.
pub open spec fn access_key(a: AccessView) -> Seq<char> {
    match a {
        AccessView::Read(k) => k,
        AccessView::Write(k, _) => k,
        AccessView::Remove(k) => k,
        AccessView::Adjust(k, _) => k,
    }
}

/// The key that a command touches.
pub open spec fn key_of(req: Request) -> Seq<char> {
    access_key(access_of(req))
}

/// The reply to a command, given the value that its key held.
pub open spec fn respond(req: Request, prior: Option<Seq<char>>) -> Result<Seq<char>, ExecError> {
    match req {
        Request::Get { key } => Ok(
            match prior {
                Some(v) => value_reply(v),
                None => not_found(key),
            },
        ),
        Request::Incr { key } => arith_response(key, adjusted(prior, true)),
        Request::Decr { key } => arith_response(key, adjusted(prior, false)),
        _ => Ok(ok_reply()),
    }
}

/// What a map operation does to its key, given the value it held: `None`
/// leaves it, `Some(None)` removes it, `Some(Some(v))` makes `v` its value.
pub open spec fn effect(a: AccessView, prior: Option<Seq<char>>) -> Option<Option<Seq<char>>> {
    match a {
        AccessView::Read(_) => None,
        AccessView::Write(_, v) => Some(Some(v)),
        AccessView::Remove(_) => Some(None),
        AccessView::Adjust(_, up) => match adjusted(prior, up) {
            Ok(t) => Some(Some(t)),
            Err(_) => None,
        },
    }
}

/// What a command does to its key, given the value it held.
pub open spec fn written(req: Request, prior: Option<Seq<char>>) -> Option<Option<Seq<char>>> {
    effect(access_of(req), prior)
}

pub open spec fn lookup(m: Map<Seq<char>, Seq<char>>, k: Seq<char>) -> Option<Seq<char>> {
    if m.contains_key(k) {
        Some(m[k])
    } else {
        None
    }
}

/// A command applied to a whole store with no other caller in between: its
/// map operation `access_of(req)` (what `Commands::access` returns and
/// `Commands::execute` hands the map) takes effect on the key, and the
/// reply is the one for the value the key held. The store after it, and
/// the reply.
pub open spec fn apply(m: Map<Seq<char>, Seq<char>>, req: Request) -> (
    Map<Seq<char>, Seq<char>>,
    Result<Seq<char>, ExecError>,
) {
    let k = key_of(req);
    let p = lookup(m, k);
    let after = match written(req, p) {
        None => m,
        Some(None) => m.remove(k),
        Some(Some(v)) => m.insert(k, v),
    };
    (after, respond(req, p))
}

pub open spec fn text_of(o: Option<&String>) -> Option<Seq<char>> {
    match o {
        Some(s) => Some(s@),
        None => None,
    }
}

pub open spec fn step_text(r: Result<String, StepFailure>) -> Result<Seq<char>, StepFailure> {
    match r {
        Ok(s) => Ok(s@),
        Err(f) => Err(f),
    }
}

pub open spec fn reply_text(r: Result<String, ExecError>) -> Result<Seq<char>, ExecError> {
    match r {
        Ok(s) => Ok(s@),
        Err(e) => Err(e),
    }
}

/// The arithmetic step on an entry's value: parse it as an `i64`, add or
/// subtract one, and give the decimal text of the result.
pub fn adjust(current: Option<&String>, up: bool) -> (r: Result<String, StepFailure>)
    ensures
        step_text(r) == adjusted(text_of(current), up),
{
    match current {
        None => Err(StepFailure::Missing),
        Some(v) => match parse_i64(v.as_str()) {
            None => Err(StepFailure::NotInteger),
            Some(n) => {
                let m = if up {
                    n.checked_add(1)
                } else {
                    n.checked_sub(1)
                };
                match m {
                    Some(m) => Ok(i64_text(m)),
                    None => Err(StepFailure::OutOfRange),
                }
            },
        },
    }
}

/// The map operation that carries out an arithmetic step on an entry:
/// install the new text, or leave the entry and report why.
pub fn adjust_operation(current: Option<&String>, up: bool) -> (r: papaya::Operation<
    String,
    StepFailure,
>)
    ensures
        match r {
            papaya::Operation::Insert(t) => adjusted(text_of(current), up) == Ok::<
                Seq<char>,
                StepFailure,
            >(t@),
            papaya::Operation::Abort(f) => adjusted(text_of(current), up) == Err::<
                Seq<char>,
                StepFailure,
            >(f),
            papaya::Operation::Remove => false,
        },
{
    match adjust(current, up) {
        Ok(t) => papaya::Operation::Insert(t),
        Err(f) => papaya::Operation::Abort(f),
    }
}

fn value_text(v: &str) -> (r: String)
    ensures
        r@ == value_reply(v@),
{
    let mut s = "+".to_owned();
    s.append(v);
    s.append("\r\n");
    s
}

fn not_found_text(key: &str) -> (r: String)
    ensures
        r@ == not_found(key@),
{
    let mut s = "-ERROR: Key \"".to_owned();
    s.append(key);
    s.append("\" not found\r\n");
    s
}

fn ok_text() -> (r: String)
    ensures
        r@ == ok_reply(),
{
    "+OK\r\n".to_owned()
}

/// The reply to `INCR` or `DECR` on `key`, given the outcome of the step.
pub fn arith_reply(key: &str, a: Result<String, StepFailure>) -> (r: Result<String, ExecError>)
    ensures
        reply_text(r) == arith_response(key@, step_text(a)),
{
    match a {
        Ok(t) => Ok(value_text(t.as_str())),
        Err(StepFailure::Missing) => Ok(not_found_text(key)),
        Err(_) => Err(ExecError::InvalidInput),
    }
}

impl Commands {
    /// The reply to this command, given the value that its key holds.
    pub fn respond(&self, prior: Option<&String>) -> (r: Result<String, ExecError>)
        ensures
            reply_text(r) == respond(self@, text_of(prior)),
    {
        match self {
            Commands::Get { key } => match prior {
                Some(v) => Ok(value_text(v.as_str())),
                None => Ok(not_found_text(key.as_str())),
            },
            Commands::Incr { key } => arith_reply(key.as_str(), adjust(prior, true)),
            Commands::Decr { key } => arith_reply(key.as_str(), adjust(prior, false)),
            _ => Ok(ok_text()),
        }
    }
}

/// A concurrent map from keys to values, shared by every connection.
pub struct Store {
    map: papaya::HashMap<String, String>,
}

/// Relies on `papaya::HashMap::new`: an empty map.
#[verifier::external_body]
fn new_map() -> (r: papaya::HashMap<String, String>) {
    papaya::HashMap::new()
}

/// Relies on `papaya::HashMapRef::get`: the value of `key` at the moment of
/// the read; other threads may change it at any time.
#[verifier::external_body]
fn get_entry(m: &papaya::HashMap<String, String>, key: &str) -> (r: Option<String>) {
    m.pin().get(key).cloned()
}

/// Relies on `papaya::HashMapRef::insert`: an upsert of one key.
#[verifier::external_body]
fn insert_entry(m: &papaya::HashMap<String, String>, key: String, value: String) {
    m.pin().insert(key, value);
}

/// Relies on `papaya::HashMapRef::remove`: removes one key, if present.
#[verifier::external_body]
fn remove_entry(m: &papaya::HashMap<String, String>, key: &str) {
    m.pin().remove(key);
}

/// What papaya's `compute` reports: the value it installed, a removal, or
/// the reason the closure gave for leaving the entry alone.
enum Computed {
    Stored(String),
    Removed,
    Aborted(StepFailure),
}

/// Relies on `papaya::HashMapRef::compute`: `adjust_operation` runs on the
/// value that `key` holds, and its `Insert` is installed only if that value
/// was not changed meanwhile (else it runs again); an `Abort` writes nothing
/// and is handed back. The map reports a removal only for a `Remove`,
/// which `adjust_operation` never returns.
#[verifier::external_body]
fn adjust_entry(m: &papaya::HashMap<String, String>, key: String, up: bool) -> (r: Computed)
    ensures
        match r {
            Computed::Stored(t) => exists|p: Option<Seq<char>>|
                #[trigger] adjusted(p, up) == Ok::<Seq<char>, StepFailure>(t@),
            Computed::Aborted(f) => exists|p: Option<Seq<char>>|
                #[trigger] adjusted(p, up) == Err::<Seq<char>, StepFailure>(f),
            Computed::Removed => false,
        },
{
    let map = m.pin();
    match map.compute(key, |entry| adjust_operation(entry.map(|e| e.1), up)) {
        papaya::Compute::Inserted(_, v) => Computed::Stored(v.clone()),
        papaya::Compute::Updated { new: (_, v), .. } => Computed::Stored(v.clone()),
        papaya::Compute::Removed(_, _) => Computed::Removed,
        papaya::Compute::Aborted(f) => Computed::Aborted(f),
    }
}

/// Runs the arithmetic step on `key` as one atomic read-modify-write of the
/// map, and gives its outcome for the value that the step saw.
fn adjust_in(store: &Store, key: &String, up: bool) -> (r: Result<String, StepFailure>)
    ensures
        exists|p: Option<Seq<char>>| step_text(r) == #[trigger] adjusted(p, up),
{
    match adjust_entry(&store.map, key.clone(), up) {
        Computed::Stored(t) => Ok(t),
        Computed::Aborted(f) => Err(f),
        Computed::Removed => Err(StepFailure::Missing),
    }
}

/// A removal that a `SETEX` asks for, after a number of seconds.
pub struct Expiry {
    pub key: String,
    pub seconds: u64,
}

impl Store {
    /// An empty store.
    pub fn new() -> (r: Store) {
        Store { map: new_map() }
    }

    /// Removes `key`, whatever its value; for an expiry whose time has come.
    pub fn expire(&self, key: &str) {
        remove_entry(&self.map, key)
    }
}

impl Commands {
    /// The operation that this command hands the map.
    pub fn access(&self) -> (r: Access)
        ensures
            r@ == access_of(self@),
    {
        match self {
            Commands::Get { key } => Access::Read(key.clone()),
            Commands::SetValue { key, value } => Access::Write(key.clone(), value.clone()),
            Commands::Setex { key, value, .. } => Access::Write(key.clone(), value.clone()),
            Commands::Del { key } => Access::Remove(key.clone()),
            Commands::Incr { key } => Access::Adjust(key.clone(), true),
            Commands::Decr { key } => Access::Adjust(key.clone(), false),
        }
    }

    /// Carries out this command on the store: hands the map exactly the
    /// operation `self.access()` (a read, an upsert, a removal, or an atomic
    /// step of `adjust_operation` on the key), and replies. Other callers may
    /// change the key at any time, so the contract gives the reply for some
    /// value of the key, and fixes it for commands whose reply does not
    /// depend on one.
    pub fn execute(&self, store: &Store) -> (r: Result<String, ExecError>)
        ensures
            exists|p: Option<Seq<char>>| reply_text(r) == #[trigger] respond(self@, p),
            match self@ {
                Request::Get { .. } => true,
                Request::Incr { .. } => true,
                Request::Decr { .. } => true,
                _ => r matches Ok(t) && t@ == ok_reply(),
            },
    {
        let access = self.access();
        match access {
            Access::Read(k) => {
                let found = get_entry(&store.map, k.as_str());
                let prior = found.as_ref();
                let r = self.respond(prior);
                assert(reply_text(r) == respond(self@, text_of(prior)));
                r
            },
            Access::Write(k, v) => {
                insert_entry(&store.map, k, v);
                let r = self.respond(None);
                assert(reply_text(r) == respond(self@, None));
                r
            },
            Access::Remove(k) => {
                remove_entry(&store.map, k.as_str());
                let r = self.respond(None);
                assert(reply_text(r) == respond(self@, None));
                r
            },
            Access::Adjust(k, up) => {
                let a = adjust_in(store, &k, up);
                let r = arith_reply(k.as_str(), a);
                proof {
                    let p = choose|p: Option<Seq<char>>| step_text(a) == #[trigger] adjusted(p, up);
                    assert(reply_text(r) == respond(self@, p));
                }
                r
            },
        }
    }

    /// The expiry that this command arms: one for `SETEX`, none otherwise.
    pub fn expiry(&self) -> (r: Option<Expiry>)
        ensures
            match self@ {
                Request::Setex { key, seconds, .. } => r matches Some(e) && e.key@ == key
                    && e.seconds == seconds,
                _ => r is None,
            },
    {
        match self {
            Commands::Setex { key, seconds, .. } => Some(Expiry { key: key.clone(), seconds: *seconds }),
            _ => None,
        }
    }
}

/// A key that was never written reads as not found, which is a reply and
/// not an error, and the read changes nothing.
pub proof fn lemma_get_unwritten(m: Map<Seq<char>, Seq<char>>, k: Seq<char>)
    requires
        !m.contains_key(k),
    ensures
        apply(m, Request::Get { key: k }) == (m, Ok::<Seq<char>, ExecError>(not_found(k))),
{
}

/// After `SET k v`, and likewise after `SETEX k s v`, `GET k` replies with
/// exactly `v`.
pub proof fn lemma_set_then_get(m: Map<Seq<char>, Seq<char>>, k: Seq<char>, v: Seq<char>, s: u64)
    ensures
        apply(apply(m, Request::SetValue { key: k, value: v }).0, Request::Get { key: k }).1
            == Ok::<Seq<char>, ExecError>(value_reply(v)),
        apply(apply(m, Request::Setex { key: k, seconds: s, value: v }).0, Request::Get { key: k }).1
            == Ok::<Seq<char>, ExecError>(value_reply(v)),
{
}

/// `DEL` always replies `+OK`; on an absent key it changes nothing, and a
/// second `DEL` of the same key changes nothing either.
pub proof fn lemma_del_idempotent(m: Map<Seq<char>, Seq<char>>, k: Seq<char>)
    ensures
        apply(m, Request::Del { key: k }).1 == Ok::<Seq<char>, ExecError>(ok_reply()),
        !m.contains_key(k) ==> apply(m, Request::Del { key: k }).0 == m,
        apply(apply(m, Request::Del { key: k }).0, Request::Del { key: k }) == (
            apply(m, Request::Del { key: k }).0,
            Ok::<Seq<char>, ExecError>(ok_reply()),
        ),
{
    let m1 = apply(m, Request::Del { key: k }).0;
    assert(m1.remove(k) =~= m1);
    if !m.contains_key(k) {
        assert(m.remove(k) =~= m);
    }
}

/// `INCR` and `DECR` on an absent key reply not found and do not create it.
pub proof fn lemma_arith_absent(m: Map<Seq<char>, Seq<char>>, k: Seq<char>)
    requires
        !m.contains_key(k),
    ensures
        apply(m, Request::Incr { key: k }) == (m, Ok::<Seq<char>, ExecError>(not_found(k))),
        apply(m, Request::Decr { key: k }) == (m, Ok::<Seq<char>, ExecError>(not_found(k))),
{
}

proof fn lemma_i64_text(n: int)
    requires
        i64::MIN <= n <= i64::MAX,
    ensures
        i64_value(decimal_text(n)) == Some(n),
{
    lemma_decimal_round_trip(n);
}

/// `INCR` then `DECR` on a key that holds the integer `n` leaves it holding
/// `n` in decimal: the value it had, where that was already so written.
pub proof fn lemma_incr_then_decr(m: Map<Seq<char>, Seq<char>>, k: Seq<char>, n: int)
    requires
        m.contains_key(k),
        i64_value(m[k]) == Some(n),
        n < i64::MAX,
    ensures
        apply(apply(m, Request::Incr { key: k }).0, Request::Decr { key: k }).0 == m.insert(
            k,
            decimal_text(n),
        ),
        m[k] == decimal_text(n) ==> apply(apply(m, Request::Incr { key: k }).0, Request::Decr { key: k }).0 == m,
{
    lemma_i64_text(n + 1);
    let m1 = apply(m, Request::Incr { key: k }).0;
    assert(m1 == m.insert(k, decimal_text(n + 1)));
    assert(m1.insert(k, decimal_text(n)) =~= m.insert(k, decimal_text(n)));
    if m[k] == decimal_text(n) {
        assert(m.insert(k, decimal_text(n)) =~= m);
    }
}

/// `INCR` or `DECR` on a value that is not an integer fails with
/// `InvalidInput` and leaves the store as it was.
pub proof fn lemma_arith_not_integer(m: Map<Seq<char>, Seq<char>>, k: Seq<char>)
    requires
        m.contains_key(k),
        i64_value(m[k]) is None,
    ensures
        apply(m, Request::Incr { key: k }) == (m, Err::<Seq<char>, ExecError>(ExecError::InvalidInput)),
        apply(m, Request::Decr { key: k }) == (m, Err::<Seq<char>, ExecError>(ExecError::InvalidInput)),
{
}

/// The store after `n` commands `INCR k` in a row.
pub open spec fn incr_times(m: Map<Seq<char>, Seq<char>>, k: Seq<char>, n: nat) -> Map<
    Seq<char>,
    Seq<char>,
>
    decreases n,
{
    if n == 0 {
        m
    } else {
        apply(incr_times(m, k, (n - 1) as nat), Request::Incr { key: k }).0
    }
}

/// In the model `apply`, `n` increments in a row of a key that starts at
/// `"0"` leave it at `n`: none is lost.
pub proof fn lemma_incr_count(m: Map<Seq<char>, Seq<char>>, k: Seq<char>, n: nat)
    requires
        n <= i64::MAX,
    ensures
        incr_times(m.insert(k, decimal_text(0)), k, n) == m.insert(k, decimal_text(n as int)),
    decreases n,
{
    if n > 0 {
        lemma_incr_count(m, k, (n - 1) as nat);
        lemma_i64_text(n - 1);
        let prev = m.insert(k, decimal_text(n - 1));
        assert(prev.insert(k, decimal_text(n as int)) =~= m.insert(k, decimal_text(n as int)));
    } else {
        assert(decimal_text(0) == decimal_text(n as int));
    }
}

} // verus!
