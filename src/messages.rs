//! The messages exchanged with the approver agent, their mathematical
//! models, and their encoding on the wire.
//!
//! ```text
//! ApprovalRequest  { 1: id, 2: host, 3: user, 4: command, 5: justification }
//! Command          { 1: cwd, 2: command, 3: args (repeated), 4: environ (repeated) }
//! ApprovalResponse { 1: id, 2: approved (bool), 3: comment }
//! ```
//! Strings are length-delimited UTF-8; `command` is a nested message; the
//! verdict is a varint. Unknown fields are skipped when reading.
use vstd::prelude::*;
use vstd::utf8::*;

use crate::wire::{
    field_at, fields, field_views, group_end, lemma_read_varint, value_len, varint,
    WIRE_END_GROUP, WIRE_START_GROUP, lemma_fields_concat, lemma_len_field, lemma_varint_field, len_field,
    parse_fields, push_len_field, push_varint_field, tag_of,
    valid_field_number, varint_field, FieldValue, WireValue, WIRE_LEN, WIRE_VARINT,
};

verus! {

broadcast use {vstd::utf8::encode_utf8_decode_utf8, vstd::utf8::encode_utf8_valid_utf8};

/// The command to be run, as shown to the approver.
#[derive(Debug, Clone, PartialEq, Eq)]
pub struct Command {
    pub cwd: Option<String>,
    pub command: Option<String>,
    /// The argument vector, program name first.
    pub args: Vec<String>,
    pub environ: Vec<String>,
}

/// What the wrapper asks the approver to decide on.
#[derive(Debug, Clone, PartialEq, Eq)]
pub struct ApprovalRequest {
    /// The name of the rendezvous socket.
    pub id: Option<String>,
    pub host: Option<String>,
    pub user: Option<String>,
    pub command: Option<Command>,
    pub justification: Option<String>,
}

/// The approver's verdict.
#[derive(Debug, Clone, PartialEq, Eq)]
pub struct ApprovalResponse {
    pub id: Option<String>,
    pub approved: Option<bool>,
    /// A reason to refuse; a non-empty comment refuses whatever `approved` says.
    pub comment: Option<String>,
}

/// A command as a mathematical value.
pub struct CommandModel {
    pub cwd: Option<Seq<char>>,
    pub command: Option<Seq<char>>,
    pub args: Seq<Seq<char>>,
    pub environ: Seq<Seq<char>>,
}

/// A request as a mathematical value.
pub struct RequestModel {
    pub id: Option<Seq<char>>,
    pub host: Option<Seq<char>>,
    pub user: Option<Seq<char>>,
    pub command: Option<CommandModel>,
    pub justification: Option<Seq<char>>,
}

/// A response as a mathematical value.
pub struct ResponseModel {
    pub id: Option<Seq<char>>,
    pub approved: Option<bool>,
    pub comment: Option<Seq<char>>,
}

/// The characters of an optional string.
pub open spec fn opt_chars(o: Option<String>) -> Option<Seq<char>> {
    match o {
        Some(s) => Some(s@),
        None => None,
    }
}

/// The characters of each string, in order.
pub open spec fn all_chars(v: Seq<String>) -> Seq<Seq<char>> {
    v.map_values(|s: String| s@)
}

impl View for Command {
    type V = CommandModel;

    open spec fn view(&self) -> CommandModel {
        CommandModel {
            cwd: opt_chars(self.cwd),
            command: opt_chars(self.command),
            args: all_chars(self.args@),
            environ: all_chars(self.environ@),
        }
    }
}

impl View for ApprovalRequest {
    type V = RequestModel;

    open spec fn view(&self) -> RequestModel {
        RequestModel {
            id: opt_chars(self.id),
            host: opt_chars(self.host),
            user: opt_chars(self.user),
            command: match self.command {
                Some(c) => Some(c@),
                None => None,
            },
            justification: opt_chars(self.justification),
        }
    }
}

impl View for ApprovalResponse {
    type V = ResponseModel;

    open spec fn view(&self) -> ResponseModel {
        ResponseModel {
            id: opt_chars(self.id),
            approved: self.approved,
            comment: opt_chars(self.comment),
        }
    }
}

// ---------------------------------------------------------------------------
// Encoding
// ---------------------------------------------------------------------------

/// A string field.
pub open spec fn str_field(field: nat, s: Seq<char>) -> Seq<u8> {
    len_field(field, encode_utf8(s))
}

/// An optional string field: absent when `None`.
pub open spec fn opt_str_field(field: nat, o: Option<Seq<char>>) -> Seq<u8> {
    match o {
        Some(s) => str_field(field, s),
        None => seq![],
    }
}

/// A repeated string field: one field per element, in order.
pub open spec fn repeated_str_field(field: nat, ss: Seq<Seq<char>>) -> Seq<u8>
    decreases ss.len(),
{
    if ss.len() == 0 {
        seq![]
    } else {
        str_field(field, ss[0]) + repeated_str_field(field, ss.drop_first())
    }
}

/// The encoding of a command: its fields in number order.
pub open spec fn command_bytes(c: CommandModel) -> Seq<u8> {
    opt_str_field(1, c.cwd) + opt_str_field(2, c.command) + repeated_str_field(3, c.args)
        + repeated_str_field(4, c.environ)
}

/// The encoding of a request: its fields in number order; the command
/// is nested as a length-delimited field.
pub open spec fn request_bytes(r: RequestModel) -> Seq<u8> {
    opt_str_field(1, r.id) + opt_str_field(2, r.host) + opt_str_field(3, r.user) + match r.command {
        Some(c) => len_field(4, command_bytes(c)),
        None => seq![],
    } + opt_str_field(5, r.justification)
}

/// The encoding of a response: its fields in number order.
pub open spec fn response_bytes(r: ResponseModel) -> Seq<u8> {
    opt_str_field(1, r.id) + match r.approved {
        Some(b) => varint_field(2, if b { 1 } else { 0 }),
        None => seq![],
    } + opt_str_field(3, r.comment)
}

/// Appends a string field.
fn push_str_field(out: &mut Vec<u8>, field: u64, s: &String)
    requires
        valid_field_number(field as nat),
    ensures
        final(out)@ == old(out)@ + str_field(field as nat, s@),
{
    push_len_field(out, field, s.as_str().as_bytes());
}

/// Appends an optional string field, nothing when absent.
fn push_opt_str_field(out: &mut Vec<u8>, field: u64, o: &Option<String>)
    requires
        valid_field_number(field as nat),
    ensures
        final(out)@ == old(out)@ + opt_str_field(field as nat, opt_chars(*o)),
{
    match o {
        Some(s) => push_str_field(out, field, s),
        None => {
            assert(out@ =~= old(out)@ + Seq::<u8>::empty());
        },
    }
}

/// Appends one string field per element.
fn push_repeated_str_field(out: &mut Vec<u8>, field: u64, v: &Vec<String>)
    requires
        valid_field_number(field as nat),
    ensures
        final(out)@ == old(out)@ + repeated_str_field(field as nat, all_chars(v@)),
{
    let ghost ss = all_chars(v@);
    let mut i: usize = 0;
    assert(ss.skip(0) =~= ss);
    assert(out@ =~= out@ + Seq::<u8>::empty());
    while i < v.len()
        invariant
            0 <= i <= v@.len(),
            ss == all_chars(v@),
            valid_field_number(field as nat),
            old(out)@ + repeated_str_field(field as nat, ss) == out@ + repeated_str_field(
                field as nat,
                ss.skip(i as int),
            ),
        decreases v@.len() - i,
    {
        let ghost before = out@;
        push_str_field(out, field, &v[i]);
        assert(ss.skip(i as int).drop_first() =~= ss.skip(i + 1));
        assert(before + repeated_str_field(field as nat, ss.skip(i as int)) =~= out@
            + repeated_str_field(field as nat, ss.skip(i + 1)));
        i = i + 1;
    }
    assert(ss.skip(i as int) =~= Seq::<Seq<char>>::empty());
    assert(out@ + Seq::<u8>::empty() =~= out@);
}

/// The bytes of a command message.
pub fn encode_command(c: &Command) -> (out: Vec<u8>)
    ensures
        out@ == command_bytes(c@),
{
    let mut out: Vec<u8> = Vec::new();
    push_opt_str_field(&mut out, 1, &c.cwd);
    push_opt_str_field(&mut out, 2, &c.command);
    push_repeated_str_field(&mut out, 3, &c.args);
    push_repeated_str_field(&mut out, 4, &c.environ);
    assert(out@ =~= command_bytes(c@));
    out
}

/// The bytes of a request message, sent to the approver in one packet.
pub fn encode_request(r: &ApprovalRequest) -> (out: Vec<u8>)
    ensures
        out@ == request_bytes(r@),
{
    let mut out: Vec<u8> = Vec::new();
    push_opt_str_field(&mut out, 1, &r.id);
    push_opt_str_field(&mut out, 2, &r.host);
    push_opt_str_field(&mut out, 3, &r.user);
    let ghost before = out@;
    match &r.command {
        Some(c) => {
            let payload = encode_command(c);
            push_len_field(&mut out, 4, payload.as_slice());
        },
        None => {
            assert(out@ =~= before + Seq::<u8>::empty());
        },
    }
    push_opt_str_field(&mut out, 5, &r.justification);
    assert(out@ =~= request_bytes(r@));
    out
}

/// The bytes of a response message.
pub fn encode_response(r: &ApprovalResponse) -> (out: Vec<u8>)
    ensures
        out@ == response_bytes(r@),
{
    let mut out: Vec<u8> = Vec::new();
    push_opt_str_field(&mut out, 1, &r.id);
    let ghost before = out@;
    match r.approved {
        Some(b) => {
            push_varint_field(&mut out, 2, if b { 1 } else { 0 });
        },
        None => {
            assert(out@ =~= before + Seq::<u8>::empty());
        },
    }
    push_opt_str_field(&mut out, 3, &r.comment);
    assert(out@ =~= response_bytes(r@));
    out
}

// ---------------------------------------------------------------------------
// Decoding
// ---------------------------------------------------------------------------

/// The characters that `p` encodes, if it is valid UTF-8.
pub open spec fn utf8_chars(p: Seq<u8>) -> Option<Seq<char>> {
    if valid_utf8(p) {
        Some(decode_utf8(p))
    } else {
        None
    }
}

/// Relies on `String::from_utf8`: it accepts exactly the byte strings that
/// encode some characters in UTF-8, and the string it returns holds those
/// bytes.
#[verifier::external_body]
fn string_from_utf8(p: &[u8]) -> (r: Option<String>)
    ensures
        match r {
            Some(s) => encode_utf8(s@) == p@,
            None => forall|c: Seq<char>| encode_utf8(c) != p@,
        },
{
    String::from_utf8(p.to_vec()).ok()
}

/// Reads a UTF-8 string payload.
pub fn decode_string(p: &[u8]) -> (r: Option<String>)
    ensures
        match r {
            Some(s) => utf8_chars(p@) == Some(s@),
            None => utf8_chars(p@) is None,
        },
{
    let r = string_from_utf8(p);
    proof {
        if r is Some {
            assert(decode_utf8(encode_utf8(r->Some_0@)) == r->Some_0@);
        } else if valid_utf8(p@) {
            vstd::utf8::decode_utf8_encode_utf8(p@);
            assert(encode_utf8(decode_utf8(p@)) == p@);
        }
    }
    r
}

/// Folds the fields `fs` into `m` one after the other with `step`; the first
/// field that `step` refuses makes the whole fold fail.
pub open spec fn fold_fields<M>(
    fs: Seq<(nat, WireValue)>,
    m: M,
    step: spec_fn(M, (nat, WireValue)) -> Option<M>,
) -> Option<M>
    decreases fs.len(),
{
    if fs.len() == 0 {
        Some(m)
    } else {
        match step(m, fs[0]) {
            Some(m2) => fold_fields(fs.drop_first(), m2, step),
            None => None,
        }
    }
}

/// Folding two runs of fields is folding the first, then the second.
pub proof fn lemma_fold_fields_concat<M>(
    a: Seq<(nat, WireValue)>,
    b: Seq<(nat, WireValue)>,
    m: M,
    step: spec_fn(M, (nat, WireValue)) -> Option<M>,
)
    ensures
        fold_fields(a + b, m, step) == match fold_fields(a, m, step) {
            Some(m2) => fold_fields(b, m2, step),
            None => None,
        },
    decreases a.len(),
{
    if a.len() == 0 {
        assert(a + b =~= b);
    } else {
        assert((a + b).drop_first() =~= a.drop_first() + b);
        assert((a + b)[0] == a[0]);
        if let Some(m2) = step(m, a[0]) {
            lemma_fold_fields_concat(a.drop_first(), b, m2, step);
        }
    }
}

/// A command with no field set.
pub open spec fn empty_command() -> CommandModel {
    CommandModel { cwd: None, command: None, args: seq![], environ: seq![] }
}

/// A request with no field set.
pub open spec fn empty_request() -> RequestModel {
    RequestModel { id: None, host: None, user: None, command: None, justification: None }
}

/// A response with no field set.
pub open spec fn empty_response() -> ResponseModel {
    ResponseModel { id: None, approved: None, comment: None }
}

/// Folds one field into a command. A field of an unknown tag is skipped;
/// a string field that is not UTF-8 is an error.
pub open spec fn apply_command_field(m: CommandModel, f: (nat, WireValue)) -> Option<CommandModel> {
    match f.1 {
        WireValue::Bytes(p) => if f.0 == tag_of(1, WIRE_LEN) {
            match utf8_chars(p) {
                Some(s) => Some(CommandModel { cwd: Some(s), ..m }),
                None => None,
            }
        } else if f.0 == tag_of(2, WIRE_LEN) {
            match utf8_chars(p) {
                Some(s) => Some(CommandModel { command: Some(s), ..m }),
                None => None,
            }
        } else if f.0 == tag_of(3, WIRE_LEN) {
            match utf8_chars(p) {
                Some(s) => Some(CommandModel { args: m.args.push(s), ..m }),
                None => None,
            }
        } else if f.0 == tag_of(4, WIRE_LEN) {
            match utf8_chars(p) {
                Some(s) => Some(CommandModel { environ: m.environ.push(s), ..m }),
                None => None,
            }
        } else {
            Some(m)
        },
        _ => Some(m),
    }
}

/// The command that `b` encodes, merged onto `m`.
pub open spec fn command_from_bytes(b: Seq<u8>, m: CommandModel) -> Option<CommandModel> {
    match fields(b) {
        Some(fs) => fold_fields(fs, m, command_step()),
        None => None,
    }
}

/// Folding step of a command.
pub open spec fn command_step() -> spec_fn(CommandModel, (nat, WireValue)) -> Option<
    CommandModel,
> {
    |m: CommandModel, f: (nat, WireValue)| apply_command_field(m, f)
}

/// Folds one field into a request. A nested command is merged onto the
/// command read so far.
pub open spec fn apply_request_field(m: RequestModel, f: (nat, WireValue)) -> Option<RequestModel> {
    match f.1 {
        WireValue::Bytes(p) => if f.0 == tag_of(1, WIRE_LEN) {
            match utf8_chars(p) {
                Some(s) => Some(RequestModel { id: Some(s), ..m }),
                None => None,
            }
        } else if f.0 == tag_of(2, WIRE_LEN) {
            match utf8_chars(p) {
                Some(s) => Some(RequestModel { host: Some(s), ..m }),
                None => None,
            }
        } else if f.0 == tag_of(3, WIRE_LEN) {
            match utf8_chars(p) {
                Some(s) => Some(RequestModel { user: Some(s), ..m }),
                None => None,
            }
        } else if f.0 == tag_of(4, WIRE_LEN) {
            let base = match m.command {
                Some(c) => c,
                None => empty_command(),
            };
            match command_from_bytes(p, base) {
                Some(c) => Some(RequestModel { command: Some(c), ..m }),
                None => None,
            }
        } else if f.0 == tag_of(5, WIRE_LEN) {
            match utf8_chars(p) {
                Some(s) => Some(RequestModel { justification: Some(s), ..m }),
                None => None,
            }
        } else {
            Some(m)
        },
        _ => Some(m),
    }
}

/// The request that `b` encodes.
pub open spec fn request_from_bytes(b: Seq<u8>) -> Option<RequestModel> {
    match fields(b) {
        Some(fs) => fold_fields(fs, empty_request(), request_step()),
        None => None,
    }
}

/// Folding step of a request.
pub open spec fn request_step() -> spec_fn(RequestModel, (nat, WireValue)) -> Option<
    RequestModel,
> {
    |m: RequestModel, f: (nat, WireValue)| apply_request_field(m, f)
}

/// Folds one field into a response. A non-zero verdict is true.
pub open spec fn apply_response_field(m: ResponseModel, f: (nat, WireValue)) -> Option<
    ResponseModel,
> {
    match f.1 {
        WireValue::Bytes(p) => if f.0 == tag_of(1, WIRE_LEN) {
            match utf8_chars(p) {
                Some(s) => Some(ResponseModel { id: Some(s), ..m }),
                None => None,
            }
        } else if f.0 == tag_of(3, WIRE_LEN) {
            match utf8_chars(p) {
                Some(s) => Some(ResponseModel { comment: Some(s), ..m }),
                None => None,
            }
        } else {
            Some(m)
        },
        WireValue::Varint(v) => if f.0 == tag_of(2, WIRE_VARINT) {
            Some(ResponseModel { approved: Some(v != 0), ..m })
        } else {
            Some(m)
        },
        WireValue::Skipped => Some(m),
    }
}

/// Folding step of a response.
pub open spec fn response_step() -> spec_fn(ResponseModel, (nat, WireValue)) -> Option<
    ResponseModel,
> {
    |m: ResponseModel, f: (nat, WireValue)| apply_response_field(m, f)
}

/// The response that `b` encodes.
pub open spec fn response_from_bytes(b: Seq<u8>) -> Option<ResponseModel> {
    match fields(b) {
        Some(fs) => fold_fields(fs, empty_response(), response_step()),
        None => None,
    }
}

/// Reads a command message from `b`, merged onto `base`.
fn decode_command_onto(b: &[u8], base: Command) -> (r: Option<Command>)
    ensures
        match r {
            Some(c) => command_from_bytes(b@, base@) == Some(c@),
            None => command_from_bytes(b@, base@) is None,
        },
{
    let fs = match parse_fields(b) {
        Some(fs) => fs,
        None => return None,
    };
    let ghost views = field_views(fs@);
    let ghost start = base@;
    let mut acc = base;
    let mut i: usize = 0;
    assert(views.skip(0) =~= views);
    while i < fs.len()
        invariant
            0 <= i <= fs@.len(),
            views == field_views(fs@),
            fields(b@) == Some(views),
            start == base@,
            fold_fields(views, start, command_step()) == fold_fields(
                views.skip(i as int),
                acc@,
                command_step(),
            ),
        decreases fs@.len() - i,
    {
        assert(views.skip(i as int).drop_first() =~= views.skip(i + 1));
        assert(views.skip(i as int)[0] == fs@[i as int]@);
        let tag = fs[i].tag;
        match &fs[i].value {
            FieldValue::Bytes(p) => {
                if tag == 10 || tag == 18 || tag == 26 || tag == 34 {
                    let s = match decode_string(p.as_slice()) {
                        Some(s) => s,
                        None => {
                            assert(fold_fields(views.skip(i as int), acc@, command_step()) is None);
                            return None;
                        },
                    };
                    if tag == 10 {
                        acc.cwd = Some(s);
                    } else if tag == 18 {
                        acc.command = Some(s);
                    } else if tag == 26 {
                        let ghost before = acc.args@;
                        acc.args.push(s);
                        assert(all_chars(acc.args@) =~= all_chars(before).push(s@));
                    } else {
                        let ghost before = acc.environ@;
                        acc.environ.push(s);
                        assert(all_chars(acc.environ@) =~= all_chars(before).push(s@));
                    }
                }
            },
            _ => {},
        }
        i = i + 1;
    }
    assert(views.skip(i as int) =~= Seq::<(nat, WireValue)>::empty());
    Some(acc)
}

/// Reads a request message.
pub fn decode_request(b: &[u8]) -> (r: Option<ApprovalRequest>)
    ensures
        match r {
            Some(m) => request_from_bytes(b@) == Some(m@),
            None => request_from_bytes(b@) is None,
        },
{
    let fs = match parse_fields(b) {
        Some(fs) => fs,
        None => return None,
    };
    let ghost views = field_views(fs@);
    let mut acc = ApprovalRequest {
        id: None,
        host: None,
        user: None,
        command: None,
        justification: None,
    };
    assert(acc@ == empty_request());
    let mut i: usize = 0;
    assert(views.skip(0) =~= views);
    while i < fs.len()
        invariant
            0 <= i <= fs@.len(),
            views == field_views(fs@),
            fields(b@) == Some(views),
            fold_fields(views, empty_request(), request_step()) == fold_fields(
                views.skip(i as int),
                acc@,
                request_step(),
            ),
        decreases fs@.len() - i,
    {
        assert(views.skip(i as int).drop_first() =~= views.skip(i + 1));
        assert(views.skip(i as int)[0] == fs@[i as int]@);
        let tag = fs[i].tag;
        match &fs[i].value {
            FieldValue::Bytes(p) => {
                if tag == 34 {
                    let base = match acc.command {
                        Some(c) => c,
                        None => Command { cwd: None, command: None, args: Vec::new(), environ: Vec::new() },
                    };
                    assert(base@ == (match acc@.command { Some(c) => c, None => empty_command() })) by {
                        if acc.command is None {
                            assert(base@.args =~= Seq::<Seq<char>>::empty());
                            assert(base@.environ =~= Seq::<Seq<char>>::empty());
                        }
                    }
                    match decode_command_onto(p.as_slice(), base) {
                        Some(c) => {
                            acc.command = Some(c);
                        },
                        None => {
                            assert(fold_fields(views.skip(i as int), acc@, request_step()) is None);
                            return None;
                        },
                    }
                } else if tag == 10 || tag == 18 || tag == 26 || tag == 42 {
                    let s = match decode_string(p.as_slice()) {
                        Some(s) => s,
                        None => {
                            assert(fold_fields(views.skip(i as int), acc@, request_step()) is None);
                            return None;
                        },
                    };
                    if tag == 10 {
                        acc.id = Some(s);
                    } else if tag == 18 {
                        acc.host = Some(s);
                    } else if tag == 26 {
                        acc.user = Some(s);
                    } else {
                        acc.justification = Some(s);
                    }
                }
            },
            _ => {},
        }
        i = i + 1;
    }
    assert(views.skip(i as int) =~= Seq::<(nat, WireValue)>::empty());
    Some(acc)
}

/// Reads a response message.
pub fn decode_response(b: &[u8]) -> (r: Option<ApprovalResponse>)
    ensures
        match r {
            Some(m) => response_from_bytes(b@) == Some(m@),
            None => response_from_bytes(b@) is None,
        },
{
    let fs = match parse_fields(b) {
        Some(fs) => fs,
        None => return None,
    };
    let ghost views = field_views(fs@);
    let mut acc = ApprovalResponse { id: None, approved: None, comment: None };
    let mut i: usize = 0;
    assert(views.skip(0) =~= views);
    while i < fs.len()
        invariant
            0 <= i <= fs@.len(),
            views == field_views(fs@),
            fields(b@) == Some(views),
            fold_fields(views, empty_response(), response_step()) == fold_fields(
                views.skip(i as int),
                acc@,
                response_step(),
            ),
        decreases fs@.len() - i,
    {
        assert(views.skip(i as int).drop_first() =~= views.skip(i + 1));
        assert(views.skip(i as int)[0] == fs@[i as int]@);
        let tag = fs[i].tag;
        match &fs[i].value {
            FieldValue::Bytes(p) => {
                if tag == 10 || tag == 26 {
                    let s = match decode_string(p.as_slice()) {
                        Some(s) => s,
                        None => {
                            assert(fold_fields(views.skip(i as int), acc@, response_step()) is None);
                            return None;
                        },
                    };
                    if tag == 10 {
                        acc.id = Some(s);
                    } else {
                        acc.comment = Some(s);
                    }
                }
            },
            FieldValue::Varint(v) => {
                if tag == 16 {
                    acc.approved = Some(*v != 0);
                }
            },
            FieldValue::Skipped => {},
        }
        i = i + 1;
    }
    assert(views.skip(i as int) =~= Seq::<(nat, WireValue)>::empty());
    Some(acc)
}

// ---------------------------------------------------------------------------
// Reading back what was written
// ---------------------------------------------------------------------------

/// The fields of a run of string fields.
pub open spec fn str_entries(field: nat, ss: Seq<Seq<char>>) -> Seq<(nat, WireValue)> {
    ss.map_values(|s: Seq<char>| (tag_of(field, WIRE_LEN), WireValue::Bytes(encode_utf8(s))))
}

/// The fields of an optional string field.
pub open spec fn opt_str_entries(field: nat, o: Option<Seq<char>>) -> Seq<(nat, WireValue)> {
    match o {
        Some(s) => str_entries(field, seq![s]),
        None => seq![],
    }
}

/// An optional string field reads back as its entries.
proof fn lemma_opt_str_fields(field: nat, o: Option<Seq<char>>)
    requires
        valid_field_number(field),
        opt_str_field(field, o).len() <= u64::MAX,
    ensures
        fields(opt_str_field(field, o)) == Some(opt_str_entries(field, o)),
{
    match o {
        Some(s) => {
            lemma_len_field(field, encode_utf8(s));
            assert(str_entries(field, seq![s]) =~= seq![(tag_of(field, WIRE_LEN), WireValue::Bytes(encode_utf8(s)))]);
        },
        None => {
            assert(fields(Seq::<u8>::empty()) == Some(Seq::<(nat, WireValue)>::empty()));
        },
    }
}

/// A run of string fields reads back as its entries.
proof fn lemma_repeated_str_fields(field: nat, ss: Seq<Seq<char>>)
    requires
        valid_field_number(field),
        repeated_str_field(field, ss).len() <= u64::MAX,
    ensures
        fields(repeated_str_field(field, ss)) == Some(str_entries(field, ss)),
    decreases ss.len(),
{
    if ss.len() == 0 {
        assert(fields(Seq::<u8>::empty()) == Some(Seq::<(nat, WireValue)>::empty()));
        assert(str_entries(field, ss) =~= Seq::<(nat, WireValue)>::empty());
    } else {
        let rest = ss.drop_first();
        lemma_len_field(field, encode_utf8(ss[0]));
        lemma_repeated_str_fields(field, rest);
        lemma_fields_concat(str_field(field, ss[0]), repeated_str_field(field, rest));
        assert(str_entries(field, ss) =~= seq![(tag_of(field, WIRE_LEN), WireValue::Bytes(encode_utf8(ss[0])))]
            + str_entries(field, rest));
    }
}

/// Folding one field is one step.
proof fn lemma_fold_single<M>(
    e: (nat, WireValue),
    m: M,
    step: spec_fn(M, (nat, WireValue)) -> Option<M>,
)
    ensures
        fold_fields(seq![e], m, step) == step(m, e),
{
    assert(seq![e].drop_first() =~= Seq::<(nat, WireValue)>::empty());
    if let Some(m2) = step(m, e) {
        assert(fold_fields(Seq::<(nat, WireValue)>::empty(), m2, step) == Some(m2));
    }
}

/// Folding argument fields appends the arguments in order.
proof fn lemma_fold_args(ss: Seq<Seq<char>>, m: CommandModel)
    ensures
        fold_fields(str_entries(3, ss), m, command_step()) == Some(CommandModel { args: m.args + ss, ..m }),
    decreases ss.len(),
{
    let es = str_entries(3, ss);
    if ss.len() == 0 {
        assert(m.args + ss =~= m.args);
    } else {
        let m2 = CommandModel { args: m.args.push(ss[0]), ..m };
        assert(es.drop_first() =~= str_entries(3, ss.drop_first()));
        assert(decode_utf8(encode_utf8(ss[0])) == ss[0]);
        assert(apply_command_field(m, es[0]) == Some(m2));
        lemma_fold_args(ss.drop_first(), m2);
        assert(m2.args + ss.drop_first() =~= m.args + ss);
    }
}

/// Folding environment fields appends them in order.
proof fn lemma_fold_environ(ss: Seq<Seq<char>>, m: CommandModel)
    ensures
        fold_fields(str_entries(4, ss), m, command_step()) == Some(CommandModel { environ: m.environ + ss, ..m }),
    decreases ss.len(),
{
    let es = str_entries(4, ss);
    if ss.len() == 0 {
        assert(m.environ + ss =~= m.environ);
    } else {
        let m2 = CommandModel { environ: m.environ.push(ss[0]), ..m };
        assert(es.drop_first() =~= str_entries(4, ss.drop_first()));
        assert(decode_utf8(encode_utf8(ss[0])) == ss[0]);
        assert(apply_command_field(m, es[0]) == Some(m2));
        lemma_fold_environ(ss.drop_first(), m2);
        assert(m2.environ + ss.drop_first() =~= m.environ + ss);
    }
}

/// Reading back the bytes of a command gives the command.
pub proof fn lemma_command_round_trip(c: CommandModel)
    requires
        command_bytes(c).len() <= u64::MAX,
    ensures
        command_from_bytes(command_bytes(c), empty_command()) == Some(c),
{
    let a = opt_str_field(1, c.cwd);
    let b = opt_str_field(2, c.command);
    let x = repeated_str_field(3, c.args);
    let y = repeated_str_field(4, c.environ);
    lemma_opt_str_fields(1, c.cwd);
    lemma_opt_str_fields(2, c.command);
    lemma_repeated_str_fields(3, c.args);
    lemma_repeated_str_fields(4, c.environ);
    lemma_fields_concat(a, b);
    lemma_fields_concat(a + b, x);
    lemma_fields_concat(a + b + x, y);
    let fa = opt_str_entries(1, c.cwd);
    let fb = opt_str_entries(2, c.command);
    let fx = str_entries(3, c.args);
    let fy = str_entries(4, c.environ);
    let step = command_step();
    lemma_fold_fields_concat(fa, fb, empty_command(), step);
    lemma_fold_fields_concat(fa + fb, fx, empty_command(), step);
    lemma_fold_fields_concat(fa + fb + fx, fy, empty_command(), step);
    let m1 = CommandModel { cwd: c.cwd, ..empty_command() };
    let m2 = CommandModel { command: c.command, ..m1 };
    if let Some(s) = c.cwd {
        lemma_fold_single(fa[0], empty_command(), step);
        assert(fa =~= seq![fa[0]]);
        assert(decode_utf8(encode_utf8(s)) == s);
    }
    assert(fold_fields(fa, empty_command(), step) == Some(m1));
    lemma_fold_fields_concat(fa, fb, empty_command(), step);
    if let Some(s) = c.command {
        lemma_fold_single(fb[0], m1, step);
        assert(fb =~= seq![fb[0]]);
        assert(decode_utf8(encode_utf8(s)) == s);
    }
    assert(fold_fields(fb, m1, step) == Some(m2));
    lemma_fold_args(c.args, m2);
    let m3 = CommandModel { args: m2.args + c.args, ..m2 };
    lemma_fold_environ(c.environ, m3);
    assert(m3.args =~= c.args);
    assert(m3.environ + c.environ =~= c.environ);
}

/// The fields of an optional nested command.
pub open spec fn command_entries(o: Option<CommandModel>) -> Seq<(nat, WireValue)> {
    match o {
        Some(c) => seq![(tag_of(4, WIRE_LEN), WireValue::Bytes(command_bytes(c)))],
        None => seq![],
    }
}

/// The fields of an encoded request.
pub open spec fn request_entries(r: RequestModel) -> Seq<(nat, WireValue)> {
    opt_str_entries(1, r.id) + opt_str_entries(2, r.host) + opt_str_entries(3, r.user)
        + command_entries(r.command) + opt_str_entries(5, r.justification)
}

/// The fields of an encoded request.
proof fn lemma_request_fields(r: RequestModel)
    requires
        request_bytes(r).len() <= u64::MAX,
    ensures
        fields(request_bytes(r)) == Some(request_entries(r)),
{
    let a = opt_str_field(1, r.id);
    let b = opt_str_field(2, r.host);
    let u = opt_str_field(3, r.user);
    let k = match r.command {
        Some(c) => len_field(4, command_bytes(c)),
        None => seq![],
    };
    let j = opt_str_field(5, r.justification);
    lemma_opt_str_fields(1, r.id);
    lemma_opt_str_fields(2, r.host);
    lemma_opt_str_fields(3, r.user);
    lemma_opt_str_fields(5, r.justification);
    match r.command {
        Some(c) => {
            lemma_len_field(4, command_bytes(c));
        },
        None => {
            assert(fields(Seq::<u8>::empty()) == Some(Seq::<(nat, WireValue)>::empty()));
        },
    }
    lemma_fields_concat(a, b);
    lemma_fields_concat(a + b, u);
    lemma_fields_concat(a + b + u, k);
    lemma_fields_concat(a + b + u + k, j);
}

/// Folding an optional string field of a request sets that field.
proof fn lemma_fold_opt_request(
    field: nat,
    o: Option<Seq<char>>,
    m: RequestModel,
    m2: RequestModel,
)
    requires
        field == 1 || field == 2 || field == 3 || field == 5,
        m2 == (if field == 1 {
            RequestModel { id: o, ..m }
        } else if field == 2 {
            RequestModel { host: o, ..m }
        } else if field == 3 {
            RequestModel { user: o, ..m }
        } else {
            RequestModel { justification: o, ..m }
        }),
        o is None ==> m2 == m,
    ensures
        fold_fields(opt_str_entries(field, o), m, request_step()) == Some(m2),
{
    let fs = opt_str_entries(field, o);
    if let Some(s) = o {
        lemma_fold_single(fs[0], m, request_step());
        assert(fs =~= seq![fs[0]]);
        assert(decode_utf8(encode_utf8(s)) == s);
    }
}

/// Round trip of a request: decoding the encoding of any request whose
/// encoding fits in memory gives back that request.
pub proof fn lemma_request_round_trip(r: RequestModel)
    requires
        request_bytes(r).len() <= u64::MAX,
    ensures
        request_from_bytes(request_bytes(r)) == Some(r),
{
    lemma_request_fields(r);
    let fa = opt_str_entries(1, r.id);
    let fb = opt_str_entries(2, r.host);
    let fu = opt_str_entries(3, r.user);
    let fk = command_entries(r.command);
    let fj = opt_str_entries(5, r.justification);
    let step = request_step();
    let m0 = empty_request();
    lemma_fold_fields_concat(fa, fb, m0, step);
    lemma_fold_fields_concat(fa + fb, fu, m0, step);
    lemma_fold_fields_concat(fa + fb + fu, fk, m0, step);
    lemma_fold_fields_concat(fa + fb + fu + fk, fj, m0, step);
    let m1 = RequestModel { id: r.id, ..m0 };
    let m2 = RequestModel { host: r.host, ..m1 };
    let m3 = RequestModel { user: r.user, ..m2 };
    let m4 = RequestModel { command: r.command, ..m3 };
    lemma_fold_opt_request(1, r.id, m0, m1);
    lemma_fold_opt_request(2, r.host, m1, m2);
    lemma_fold_opt_request(3, r.user, m2, m3);
    if let Some(c) = r.command {
        assert(len_field(4, command_bytes(c)).len() <= request_bytes(r).len());
        lemma_command_round_trip(c);
        lemma_fold_single(fk[0], m3, step);
    }
    assert(fold_fields(fk, m3, step) == Some(m4));
    lemma_fold_opt_request(5, r.justification, m4, r);
}

/// The fields of an encoded response fold back into the response.
proof fn lemma_response_fields(r: ResponseModel)
    requires
        response_bytes(r).len() <= u64::MAX,
    ensures
        fold_fields(fields(response_bytes(r))->Some_0, empty_response(), response_step()) == Some(r),
        fields(response_bytes(r)) is Some,
{
    let a = opt_str_field(1, r.id);
    let v = match r.approved {
        Some(b) => varint_field(2, if b { 1 } else { 0 }),
        None => seq![],
    };
    let c = opt_str_field(3, r.comment);
    let fv: Seq<(nat, WireValue)> = match r.approved {
        Some(b) => seq![(tag_of(2, WIRE_VARINT), WireValue::Varint(if b { 1 } else { 0 }))],
        None => seq![],
    };
    lemma_opt_str_fields(1, r.id);
    lemma_opt_str_fields(3, r.comment);
    match r.approved {
        Some(b) => {
            lemma_varint_field(2, if b { 1 } else { 0 });
        },
        None => {
            assert(fields(Seq::<u8>::empty()) == Some(Seq::<(nat, WireValue)>::empty()));
        },
    }
    assert(fields(v) == Some(fv));
    lemma_fields_concat(a, v);
    lemma_fields_concat(a + v, c);
    let fa = opt_str_entries(1, r.id);
    let fc = opt_str_entries(3, r.comment);
    let step = response_step();
    let m0 = empty_response();
    lemma_fold_fields_concat(fa, fv, m0, step);
    lemma_fold_fields_concat(fa + fv, fc, m0, step);
    let m1 = ResponseModel { id: r.id, ..m0 };
    let m2 = ResponseModel { approved: r.approved, ..m1 };
    if let Some(s) = r.id {
        lemma_fold_single(fa[0], m0, step);
        assert(fa =~= seq![fa[0]]);
        assert(decode_utf8(encode_utf8(s)) == s);
    }
    assert(fold_fields(fa, m0, step) == Some(m1));
    if let Some(b) = r.approved {
        lemma_fold_single(fv[0], m1, step);
    }
    assert(fold_fields(fv, m1, step) == Some(m2));
    if let Some(s) = r.comment {
        lemma_fold_single(fc[0], m2, step);
        assert(fc =~= seq![fc[0]]);
        assert(decode_utf8(encode_utf8(s)) == s);
    }
    assert(fold_fields(fc, m2, step) == Some(r));
}

/// Round trip of a response: decoding the encoding of any response whose
/// encoding fits in memory gives back that response.
pub proof fn lemma_response_round_trip(r: ResponseModel)
    requires
        response_bytes(r).len() <= u64::MAX,
    ensures
        response_from_bytes(response_bytes(r)) == Some(r),
{
    lemma_response_fields(r);
}

/// A reader of responses skips fields it does not know: a length-delimited
/// field of any other number, put after a response, leaves the response
/// it reads unchanged.
pub proof fn lemma_response_skips_unknown_field(r: ResponseModel, field: nat, payload: Seq<u8>)
    requires
        valid_field_number(field),
        field != 1 && field != 2 && field != 3,
        response_bytes(r).len() <= u64::MAX,
        payload.len() <= u64::MAX,
    ensures
        response_from_bytes(response_bytes(r) + len_field(field, payload)) == Some(r),
{
    let e = (tag_of(field, WIRE_LEN), WireValue::Bytes(payload));
    lemma_response_fields(r);
    lemma_len_field(field, payload);
    lemma_fields_concat(response_bytes(r), len_field(field, payload));
    lemma_fold_fields_concat(fields(response_bytes(r))->Some_0, seq![e], empty_response(), response_step());
    lemma_fold_single(e, r, response_step());
    assert(tag_of(field, WIRE_LEN) != tag_of(1, WIRE_LEN));
    assert(tag_of(field, WIRE_LEN) != tag_of(3, WIRE_LEN));
}

/// The same for an empty group of any other number.
pub proof fn lemma_response_skips_unknown_group(r: ResponseModel, field: nat)
    requires
        valid_field_number(field),
        field != 1 && field != 2 && field != 3,
        response_bytes(r).len() <= u64::MAX,
    ensures
        response_from_bytes(
            response_bytes(r) + varint(tag_of(field, WIRE_START_GROUP)) + varint(
                tag_of(field, WIRE_END_GROUP),
            ),
        ) == Some(r),
{
    let t3 = tag_of(field, WIRE_START_GROUP);
    let t4 = tag_of(field, WIRE_END_GROUP);
    let g = varint(t3) + varint(t4);
    let e = (t3, WireValue::Skipped);
    lemma_read_varint(t3, varint(t4));
    assert(g.skip(varint(t3).len() as int) =~= varint(t4) + Seq::<u8>::empty());
    lemma_read_varint(t4, Seq::<u8>::empty());
    assert(t3 / 8 == field && t3 % 8 == WIRE_START_GROUP);
    assert(t4 / 8 == field && t4 % 8 == WIRE_END_GROUP);
    let after = varint(t4) + Seq::<u8>::empty();
    assert(after.skip(varint(t4).len() as int) =~= Seq::<u8>::empty());
    assert(value_len(WIRE_END_GROUP as nat, Seq::<u8>::empty()) == Some(0nat));
    assert(after.skip((varint(t4).len() + 0) as int) =~= Seq::<u8>::empty());
    assert(group_end(Seq::<u8>::empty(), 0) == Some(0nat));
    assert(group_end(after, 1) == Some(varint(t4).len()));
    assert(field_at(g) == Some((t3, WireValue::Skipped, g.len())));
    assert(g.skip(g.len() as int) =~= Seq::<u8>::empty());
    assert(fields(Seq::<u8>::empty()) == Some(Seq::<(nat, WireValue)>::empty()));
    assert(seq![e] + Seq::<(nat, WireValue)>::empty() =~= seq![e]);
    assert(fields(g) == Some(seq![e]));
    lemma_response_fields(r);
    lemma_fields_concat(response_bytes(r), g);
    assert(response_bytes(r) + varint(t3) + varint(t4) =~= response_bytes(r) + g);
    lemma_fold_fields_concat(fields(response_bytes(r))->Some_0, seq![e], empty_response(), response_step());
    lemma_fold_single(e, r, response_step());
}

/// The same for a varint field of any other number.
pub proof fn lemma_response_skips_unknown_varint(r: ResponseModel, field: nat, v: nat)
    requires
        valid_field_number(field),
        field != 1 && field != 2 && field != 3,
        response_bytes(r).len() <= u64::MAX,
        v <= u64::MAX,
    ensures
        response_from_bytes(response_bytes(r) + varint_field(field, v)) == Some(r),
{
    let e = (tag_of(field, WIRE_VARINT), WireValue::Varint(v));
    lemma_response_fields(r);
    lemma_varint_field(field, v);
    lemma_fields_concat(response_bytes(r), varint_field(field, v));
    lemma_fold_fields_concat(fields(response_bytes(r))->Some_0, seq![e], empty_response(), response_step());
    lemma_fold_single(e, r, response_step());
    assert(tag_of(field, WIRE_VARINT) != tag_of(2, WIRE_VARINT));
}

} // verus!
