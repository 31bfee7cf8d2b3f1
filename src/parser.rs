use vstd::prelude::*;
use vstd::slice::slice_subrange;
use vstd::string::*;
use crate::numeric::{parse_u64, token_string, token_text, u64_value};

verus! {

/// ASCII whitespace, as `u8::is_ascii_whitespace` has it.
pub open spec fn is_space(b: u8) -> bool {
    b == 32 || b == 9 || b == 10 || b == 12 || b == 13
}

/// The length of the run of non-space bytes at the start of `s`.
pub open spec fn word_len(s: Seq<u8>) -> nat
    decreases s.len(),
{
    if s.len() == 0 || is_space(s[0]) {
        0
    } else {
        1 + word_len(s.drop_first())
    }
}

proof fn lemma_word_len(s: Seq<u8>)
    ensures
        word_len(s) <= s.len(),
        s.len() > 0 && !is_space(s[0]) ==> word_len(s) > 0,
    decreases s.len(),
{
    if s.len() > 0 && !is_space(s[0]) {
        lemma_word_len(s.drop_first());
    }
}

/// The tokens of `s`: its maximal runs of non-space bytes, in order.
pub open spec fn tokens(s: Seq<u8>) -> Seq<Seq<u8>>
    decreases s.len(),
    via tokens_decreases
{
    if s.len() == 0 {
        Seq::empty()
    } else if is_space(s[0]) {
        tokens(s.drop_first())
    } else {
        let n = word_len(s) as int;
        seq![s.take(n)] + tokens(s.skip(n))
    }
}

#[via_fn]
proof fn tokens_decreases(s: Seq<u8>) {
    lemma_word_len(s);
}

fn space(b: u8) -> (r: bool)
    ensures
        r == is_space(b),
{
    b == 32 || b == 9 || b == 10 || b == 12 || b == 13
}

/// Finds the first token of `buf` at or after `pos`, as a range of indices.
fn next_token(buf: &[u8], pos: usize) -> (r: Option<(usize, usize)>)
    requires
        pos <= buf@.len(),
    ensures
        match r {
            None => tokens(buf@.skip(pos as int)) == Seq::<Seq<u8>>::empty(),
            Some((a, b)) => pos <= a < b <= buf@.len() && tokens(buf@.skip(pos as int)) == seq![
                buf@.subrange(a as int, b as int),
            ] + tokens(buf@.skip(b as int)),
        },
{
    let mut a: usize = pos;
    while a < buf.len() && space(buf[a])
        invariant
            pos <= a <= buf@.len(),
            tokens(buf@.skip(pos as int)) == tokens(buf@.skip(a as int)),
        decreases buf@.len() - a,
    {
        proof {
            assert(buf@.skip(a as int).drop_first() =~= buf@.skip(a + 1));
        }
        a = a + 1;
    }
    if a == buf.len() {
        proof {
            assert(buf@.skip(a as int) =~= Seq::<u8>::empty());
        }
        return None;
    }
    proof {
        assert(buf@.skip(a as int).drop_first() =~= buf@.skip(a + 1));
    }
    let mut b: usize = a + 1;
    while b < buf.len() && !space(buf[b])
        invariant
            a < b <= buf@.len(),
            !is_space(buf@[a as int]),
            word_len(buf@.skip(a as int)) == (b - a) + word_len(buf@.skip(b as int)),
        decreases buf@.len() - b,
    {
        proof {
            assert(buf@.skip(b as int).drop_first() =~= buf@.skip(b + 1));
        }
        b = b + 1;
    }
    proof {
        let s = buf@.skip(a as int);
        let n = (b - a) as int;
        assert(word_len(s) == n);
        assert(s.take(n) =~= buf@.subrange(a as int, b as int));
        assert(s.skip(n) =~= buf@.skip(b as int));
    }
    Some((a, b))
}

/// An operand that a command names.
#[derive(Clone, Copy, Debug, PartialEq, Eq, Structural)]
pub enum Param {
    Key,
    Value,
    Seconds,
}

/// Why a request could not be read as a command.
#[derive(Clone, Copy, Debug, PartialEq, Eq, Structural)]
pub enum ParseError {
    /// The peer sent no bytes at all.
    NoData,
    /// The request held only whitespace.
    MissingCommand,
    MissingParameter(Param),
    InvalidType(Param),
    UnknownCommand,
}

/// A parsed command, as plain text values.
pub ghost enum Request {
    Get { key: Seq<char> },
    SetValue { key: Seq<char>, value: Seq<char> },
    Setex { key: Seq<char>, seconds: u64, value: Seq<char> },
    Del { key: Seq<char> },
    Incr { key: Seq<char> },
    Decr { key: Seq<char> },
}

/// One client request, fully parsed.
#[derive(Clone, Debug, PartialEq, Eq)]
pub enum Commands {
    Get { key: String },
    SetValue { key: String, value: String },
    Setex { key: String, seconds: u64, value: String },
    Del { key: String },
    Incr { key: String },
    Decr { key: String },
}

impl View for Commands {
    type V = Request;

    open spec fn view(&self) -> Request {
        match self {
            Commands::Get { key } => Request::Get { key: key@ },
            Commands::SetValue { key, value } => Request::SetValue { key: key@, value: value@ },
            Commands::Setex { key, seconds, value } => Request::Setex {
                key: key@,
                seconds: *seconds,
                value: value@,
            },
            Commands::Del { key } => Request::Del { key: key@ },
            Commands::Incr { key } => Request::Incr { key: key@ },
            Commands::Decr { key } => Request::Decr { key: key@ },
        }
    }
}

pub open spec fn upper(b: u8) -> u8 {
    if 97 <= b <= 122 {
        (b - 32) as u8
    } else {
        b
    }
}

/// `tok` spells `name` (given in capitals), in any case. Command names are
/// ASCII, so only ASCII letters are folded: a name written with a letter
/// whose Unicode capital merely looks like an ASCII one is not a command.
pub open spec fn spells(tok: Seq<u8>, name: Seq<char>) -> bool {
    tok.len() == name.len() && forall|i: int|
        0 <= i < tok.len() ==> upper(#[trigger] tok[i]) as int == name[i] as int
}

/// The command that a request buffer holds: a case-insensitive name, then
/// its operands in a fixed order, each one token.
pub open spec fn parse_request(b: Seq<u8>) -> Result<Request, ParseError> {
    let t = tokens(b);
    if b.len() == 0 {
        Err(ParseError::NoData)
    } else if t.len() == 0 {
        Err(ParseError::MissingCommand)
    } else {
        let name = t[0];
        if spells(name, seq!['G', 'E', 'T']) || spells(name, seq!['D', 'E', 'L'])
            || spells(name, seq!['I', 'N', 'C', 'R']) || spells(name, seq!['D', 'E', 'C', 'R']) {
            if t.len() < 2 {
                Err(ParseError::MissingParameter(Param::Key))
            } else {
                let key = token_text(t[1]);
                Ok(
                    if spells(name, seq!['G', 'E', 'T']) {
                        Request::Get { key }
                    } else if spells(name, seq!['D', 'E', 'L']) {
                        Request::Del { key }
                    } else if spells(name, seq!['I', 'N', 'C', 'R']) {
                        Request::Incr { key }
                    } else {
                        Request::Decr { key }
                    },
                )
            }
        } else if spells(name, seq!['S', 'E', 'T']) {
            if t.len() < 2 {
                Err(ParseError::MissingParameter(Param::Key))
            } else if t.len() < 3 {
                Err(ParseError::MissingParameter(Param::Value))
            } else {
                Ok(Request::SetValue { key: token_text(t[1]), value: token_text(t[2]) })
            }
        } else if spells(name, seq!['S', 'E', 'T', 'E', 'X']) {
            if t.len() < 2 {
                Err(ParseError::MissingParameter(Param::Key))
            } else if t.len() < 3 {
                Err(ParseError::MissingParameter(Param::Seconds))
            } else if u64_value(token_text(t[2])) is None {
                Err(ParseError::InvalidType(Param::Seconds))
            } else if t.len() < 4 {
                Err(ParseError::MissingParameter(Param::Value))
            } else {
                Ok(
                    Request::Setex {
                        key: token_text(t[1]),
                        seconds: u64_value(token_text(t[2]))->Some_0 as u64,
                        value: token_text(t[3]),
                    },
                )
            }
        } else {
            Err(ParseError::UnknownCommand)
        }
    }
}

/// Whether the token `tok` spells `name` (given in capitals), in any case.
fn token_spells(tok: &[u8], name: &str) -> (r: bool)
    ensures
        r == spells(tok@, name@),
{
    let n = name.unicode_len();
    if tok.len() != n {
        return false;
    }
    let mut i: usize = 0;
    while i < n
        invariant
            n == name@.len(),
            tok@.len() == n,
            i <= n,
            forall|j: int| 0 <= j < i ==> upper(#[trigger] tok@[j]) as int == name@[j] as int,
        decreases n - i,
    {
        let b = tok[i];
        let u: u8 = if 97 <= b && b <= 122 {
            b - 32
        } else {
            b
        };
        if u as u32 != name.get_char(i) as u32 {
            return false;
        }
        i = i + 1;
    }
    true
}

/// Reads the operands of a request, one token at a time.
struct Parser<'a> {
    buf: &'a [u8],
    pos: usize,
}

impl<'a> Parser<'a> {
    spec fn rest(&self) -> Seq<Seq<u8>> {
        tokens(self.buf@.skip(self.pos as int))
    }

    spec fn wf(&self) -> bool {
        self.pos <= self.buf@.len()
    }

    /// Takes the next token, if any.
    fn next(&mut self) -> (r: Option<&'a [u8]>)
        requires
            old(self).wf(),
        ensures
            final(self).wf(),
            final(self).buf@ == old(self).buf@,
            match r {
                Some(tok) => old(self).rest().len() > 0 && tok@ == old(self).rest()[0]
                    && final(self).rest() == old(self).rest().drop_first(),
                None => old(self).rest().len() == 0,
            },
    {
        match next_token(self.buf, self.pos) {
            Some((a, b)) => {
                self.pos = b;
                proof {
                    let t = seq![self.buf@.subrange(a as int, b as int)] + tokens(self.buf@.skip(b as int));
                    assert(t.drop_first() =~= tokens(self.buf@.skip(b as int)));
                }
                Some(slice_subrange(self.buf, a, b))
            },
            None => None,
        }
    }

    /// Takes the next token as the operand `param`, which is required.
    fn base_parse(&mut self, param: Param) -> (r: Result<&'a [u8], ParseError>)
        requires
            old(self).wf(),
        ensures
            final(self).wf(),
            final(self).buf@ == old(self).buf@,
            match r {
                Ok(tok) => old(self).rest().len() > 0 && tok@ == old(self).rest()[0]
                    && final(self).rest() == old(self).rest().drop_first(),
                Err(e) => old(self).rest().len() == 0 && e == ParseError::MissingParameter(param),
            },
    {
        match self.next() {
            Some(tok) => Ok(tok),
            None => Err(ParseError::MissingParameter(param)),
        }
    }

    fn parse_key(&mut self) -> (r: Result<String, ParseError>)
        requires
            old(self).wf(),
        ensures
            final(self).wf(),
            final(self).buf@ == old(self).buf@,
            match r {
                Ok(k) => old(self).rest().len() > 0 && k@ == token_text(old(self).rest()[0])
                    && final(self).rest() == old(self).rest().drop_first(),
                Err(e) => old(self).rest().len() == 0 && e == ParseError::MissingParameter(Param::Key),
            },
    {
        let tok = self.base_parse(Param::Key)?;
        Ok(token_string(tok))
    }

    fn parse_value(&mut self) -> (r: Result<String, ParseError>)
        requires
            old(self).wf(),
        ensures
            final(self).wf(),
            final(self).buf@ == old(self).buf@,
            match r {
                Ok(v) => old(self).rest().len() > 0 && v@ == token_text(old(self).rest()[0])
                    && final(self).rest() == old(self).rest().drop_first(),
                Err(e) => old(self).rest().len() == 0 && e == ParseError::MissingParameter(Param::Value),
            },
    {
        let tok = self.base_parse(Param::Value)?;
        Ok(token_string(tok))
    }

    fn parse_seconds(&mut self) -> (r: Result<u64, ParseError>)
        requires
            old(self).wf(),
        ensures
            final(self).wf(),
            final(self).buf@ == old(self).buf@,
            match r {
                Ok(n) => old(self).rest().len() > 0
                    && u64_value(token_text(old(self).rest()[0])) == Some(n as int)
                    && final(self).rest() == old(self).rest().drop_first(),
                Err(e) => if old(self).rest().len() == 0 {
                    e == ParseError::MissingParameter(Param::Seconds)
                } else {
                    u64_value(token_text(old(self).rest()[0])) is None
                        && e == ParseError::InvalidType(Param::Seconds)
                },
            },
    {
        let tok = self.base_parse(Param::Seconds)?;
        let text = token_string(tok);
        match parse_u64(text.as_str()) {
            Some(n) => Ok(n),
            None => Err(ParseError::InvalidType(Param::Seconds)),
        }
    }
}

pub open spec fn param_name(p: Param) -> Seq<char> {
    match p {
        Param::Key => "KEY"@,
        Param::Value => "VALUE"@,
        Param::Seconds => "SECONDS"@,
    }
}

/// The text that reports a parse error to the client.
pub open spec fn parse_message(e: ParseError) -> Seq<char> {
    match e {
        ParseError::NoData => "-ERROR: Client sent no data"@,
        ParseError::MissingCommand => "-ERROR: Missing command"@,
        ParseError::MissingParameter(p) => "-ERROR: "@ + param_name(p) + " parameter is required."@,
        ParseError::InvalidType(p) => "-ERROR: "@ + param_name(p) + " parameter needs to be of type: u64"@,
        ParseError::UnknownCommand => "-ERROR: Unknown command."@,
    }
}

impl Param {
    pub fn name(&self) -> (r: &'static str)
        ensures
            r@ == param_name(*self),
    {
        match self {
            Param::Key => "KEY",
            Param::Value => "VALUE",
            Param::Seconds => "SECONDS",
        }
    }
}

impl ParseError {
    pub fn message(&self) -> (r: String)
        ensures
            r@ == parse_message(*self),
    {
        match self {
            ParseError::NoData => "-ERROR: Client sent no data".to_owned(),
            ParseError::MissingCommand => "-ERROR: Missing command".to_owned(),
            ParseError::MissingParameter(p) => {
                let mut s = "-ERROR: ".to_owned();
                s.append(p.name());
                s.append(" parameter is required.");
                s
            },
            ParseError::InvalidType(p) => {
                let mut s = "-ERROR: ".to_owned();
                s.append(p.name());
                s.append(" parameter needs to be of type: u64");
                s
            },
            ParseError::UnknownCommand => "-ERROR: Unknown command.".to_owned(),
        }
    }
}

impl Commands {
    /// Reads one command from a request buffer.
    pub fn parse_command(buffer: &[u8]) -> (r: Result<Commands, ParseError>)
        ensures
            match r {
                Ok(c) => parse_request(buffer@) == Ok::<Request, ParseError>(c@),
                Err(e) => parse_request(buffer@) == Err::<Request, ParseError>(e),
            },
    {
        if buffer.len() == 0 {
            return Err(ParseError::NoData);
        }
        let mut parser = Parser { buf: buffer, pos: 0 };
        proof {
            assert(buffer@.skip(0) =~= buffer@);
        }
        let name = match parser.next() {
            Some(tok) => tok,
            None => return Err(ParseError::MissingCommand),
        };
        proof {
            reveal_strlit("GET");
            reveal_strlit("SET");
            reveal_strlit("SETEX");
            reveal_strlit("DEL");
            reveal_strlit("INCR");
            reveal_strlit("DECR");
        }
        if token_spells(name, "GET") {
            Ok(Commands::Get { key: parser.parse_key()? })
        } else if token_spells(name, "SET") {
            let key = parser.parse_key()?;
            let value = parser.parse_value()?;
            Ok(Commands::SetValue { key, value })
        } else if token_spells(name, "SETEX") {
            let key = parser.parse_key()?;
            let seconds = parser.parse_seconds()?;
            let value = parser.parse_value()?;
            Ok(Commands::Setex { key, seconds, value })
        } else if token_spells(name, "DEL") {
            Ok(Commands::Del { key: parser.parse_key()? })
        } else if token_spells(name, "INCR") {
            Ok(Commands::Incr { key: parser.parse_key()? })
        } else if token_spells(name, "DECR") {
            Ok(Commands::Decr { key: parser.parse_key()? })
        } else {
            Err(ParseError::UnknownCommand)
        }
    }
}

} // verus!
