use vstd::prelude::*;
use vstd::string::*;
use crate::parser::{parse_message, parse_request, Commands, ParseError, Request};
use crate::store::{exec_message, respond, ExecError, Expiry, Store};

verus! {

/// What to do with one connection: the reply to send, if any, and the
/// expiry to arm, if any.
pub struct Handled {
    pub reply: Option<String>,
    pub expiry: Option<Expiry>,
}

/// The text sent back for the outcome of a command: a failure becomes its
/// message on a line of its own.
pub open spec fn outcome_text(o: Result<Seq<char>, ExecError>) -> Seq<char> {
    match o {
        Ok(t) => t,
        Err(e) => exec_message(e) + "\r\n"@,
    }
}

/// The expiry that a request arms.
pub open spec fn arms(req: Request, x: Option<Expiry>) -> bool {
    match req {
        Request::Setex { key, seconds, .. } => x matches Some(e) && e.key@ == key && e.seconds
            == seconds,
        _ => x is None,
    }
}

fn line(mut s: String) -> (r: String)
    ensures
        r@ == s@ + "\r\n"@,
{
    s.append("\r\n");
    s
}

/// Serves one request buffer against the store. A buffer with no bytes
/// gets no reply: the peer has gone.
pub fn handle_request(buffer: &[u8], store: &Store) -> (r: Handled)
    ensures
        match parse_request(buffer@) {
            Err(ParseError::NoData) => r.reply is None && r.expiry is None,
            Err(e) => r.reply matches Some(t) && t@ == parse_message(e) + "\r\n"@
                && r.expiry is None,
            Ok(req) => (exists|p: Option<Seq<char>>|
                r.reply matches Some(t) && t@ == outcome_text(#[trigger] respond(req, p)))
                && arms(req, r.expiry),
        },
{
    let command = match Commands::parse_command(buffer) {
        Ok(c) => c,
        Err(ParseError::NoData) => return Handled { reply: None, expiry: None },
        Err(e) => return Handled { reply: Some(line(e.message())), expiry: None },
    };
    let outcome = command.execute(store);
    let ghost p = choose|p: Option<Seq<char>>|
        crate::store::reply_text(outcome) == #[trigger] respond(command@, p);
    let reply = match outcome {
        Ok(t) => t,
        Err(e) => line(e.message()),
    };
    let expiry = command.expiry();
    assert(reply@ == outcome_text(respond(command@, p)));
    Handled { reply: Some(reply), expiry }
}

} // verus!
