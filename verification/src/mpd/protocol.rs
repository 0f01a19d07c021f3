//! The wire protocol of MPD: the greeting, the framing of commands, and the lines of a
//! response.
//!
//! A command is its name followed by quoted arguments and a line feed. A response is a
//! sequence of `Key: Value` lines closed by `OK` or by `ACK <text>`; a `binary: <N>` line
//! is followed by N bytes and a line feed. The caller reads from the socket and hands each
//! line to [`ResponseReader::on_line`].

use crate::text::{
    chars_of, equals_str, find, first_at, lemma_first_at, parse_u64, plus_decimal, push_str,
    same_text, starts_with, string_between, string_of, trim_end, trimmed_right,
};
use vstd::prelude::*;

verus! {

/// What MPD said of itself when the connection was opened.
#[derive(Debug, Clone, PartialEq, Eq)]
pub struct Protocol {
    pub version: String,
}

/// What is wrong with what MPD sent, or with what was to be sent to it.
#[derive(Debug, Clone, PartialEq, Eq)]
pub enum ProtocolError {
    /// The first line was not `OK MPD <version>`; this is the line.
    UnexpectedGreeting(String),
    /// The connection ended inside a response.
    ConnectionEof,
    /// The length in a `binary:` line is no number; this is the text.
    BinaryLength(String),
    /// The binary data was not followed by a line feed.
    BinaryNotTerminated,
    /// A line of the response has no known shape; this is the line.
    UnrecognisedLine(String),
    /// An argument of a command holds a line feed.
    NewlineInArgument,
}

/// The rest of `s` after `prefix`, where `s` begins with it.
pub fn prefixed<'a>(prefix: &str, s: &'a str) -> (rest: Option<&'a str>)
    ensures
        rest is Some <==> prefix@.is_prefix_of(s@),
        rest is Some ==> rest->0@ == s@.skip(prefix@.len() as int),
{
    let v = chars_of(s);
    if starts_with(&v, prefix) {
        let from = prefix.unicode_len();
        let to = s.unicode_len();
        let rest = s.substring_char(from, to);
        assert(s@.subrange(from as int, to as int) == s@.skip(from as int));
        Some(rest)
    } else {
        None
    }
}

/// What the greeting begins with.
pub open spec fn greeting_prefix() -> Seq<char> {
    "OK MPD "@
}

/// Reads the first line that MPD sends: `OK MPD <version>`, with or without white space
/// at its end.
pub fn greeting(raw: &str) -> (r: Result<Protocol, ProtocolError>)
    ensures
        r is Ok <==> greeting_prefix().is_prefix_of(trim_end(raw@)),
        r is Ok ==> r->Ok_0.version@ == trim_end(raw@).skip(greeting_prefix().len() as int),
        r is Err ==> r->Err_0 is UnexpectedGreeting && r->Err_0->UnexpectedGreeting_0@
            == trim_end(raw@),
{
    let v = trimmed_right(raw);
    let head = chars_of("OK MPD ");
    if starts_with(&v, "OK MPD ") {
        let version = string_between(&v, head.len(), v.len());
        assert(v@.subrange(head.len() as int, v@.len() as int) == v@.skip(head.len() as int));
        Ok(Protocol { version })
    } else {
        Err(ProtocolError::UnexpectedGreeting(string_of(&v)))
    }
}

/// The argument `arg` as it stands between the quotes of a command: `"` and `\` each
/// with a `\` before it.
pub open spec fn escaped(arg: Seq<char>) -> Seq<char>
    decreases arg.len(),
{
    if arg.len() == 0 {
        Seq::empty()
    } else if arg.last() == '"' || arg.last() == '\\' {
        escaped(arg.drop_last()).push('\\').push(arg.last())
    } else {
        escaped(arg.drop_last()).push(arg.last())
    }
}

/// The argument `arg`, quoted.
pub open spec fn quoted(arg: Seq<char>) -> Seq<char> {
    seq!['"'] + escaped(arg) + seq!['"']
}

/// What stands between the quotes of a quoted argument, read back: a `\` makes the next
/// character stand for itself. `None` where a `"` stands bare or a `\` is the last
/// character.
pub open spec fn unescaped(body: Seq<char>) -> Option<Seq<char>>
    decreases body.len(),
{
    if body.len() == 0 {
        Some(Seq::empty())
    } else if body[0] == '"' {
        None
    } else if body[0] == '\\' {
        if body.len() < 2 {
            None
        } else {
            match unescaped(body.skip(2)) {
                Some(rest) => Some(seq![body[1]] + rest),
                None => None,
            }
        }
    } else {
        match unescaped(body.skip(1)) {
            Some(rest) => Some(seq![body[0]] + rest),
            None => None,
        }
    }
}

/// A quoted argument, read back as MPD reads it: the text between the two quotes,
/// unescaped.
pub open spec fn unquoted(text: Seq<char>) -> Option<Seq<char>> {
    if text.len() >= 2 && text[0] == '"' && text.last() == '"' {
        unescaped(text.subrange(1, text.len() - 1))
    } else {
        None
    }
}

/// Reading back two pieces one after the other reads back the whole.
proof fn lemma_unescaped_concat(a: Seq<char>, b: Seq<char>)
    requires
        unescaped(a) is Some,
        unescaped(b) is Some,
    ensures
        unescaped(a + b) == Some(unescaped(a)->0 + unescaped(b)->0),
    decreases a.len(),
{
    if a.len() == 0 {
        assert(a + b == b);
        assert(Seq::<char>::empty() + unescaped(b)->0 == unescaped(b)->0);
    } else if a[0] == '\\' {
        assert((a + b).skip(2) == a.skip(2) + b);
        lemma_unescaped_concat(a.skip(2), b);
        assert(seq![a[1]] + (unescaped(a.skip(2))->0 + unescaped(b)->0) == (seq![a[1]]
            + unescaped(a.skip(2))->0) + unescaped(b)->0);
    } else {
        assert((a + b).skip(1) == a.skip(1) + b);
        lemma_unescaped_concat(a.skip(1), b);
        assert(seq![a[0]] + (unescaped(a.skip(1))->0 + unescaped(b)->0) == (seq![a[0]]
            + unescaped(a.skip(1))->0) + unescaped(b)->0);
    }
}

/// What `escaped` writes reads back as what it was given.
proof fn lemma_escape_round_trip(arg: Seq<char>)
    ensures
        unescaped(escaped(arg)) == Some(arg),
    decreases arg.len(),
{
    if arg.len() > 0 {
        let c = arg.last();
        lemma_escape_round_trip(arg.drop_last());
        let piece = if c == '"' || c == '\\' {
            seq!['\\', c]
        } else {
            seq![c]
        };
        assert(escaped(arg) == escaped(arg.drop_last()) + piece);
        assert(unescaped(piece) == Some(seq![c])) by {
            if c == '"' || c == '\\' {
                assert(piece.skip(2).len() == 0);
                assert(unescaped(piece.skip(2)) == Some(Seq::<char>::empty()));
                assert(seq![piece[1]] + Seq::<char>::empty() == seq![c]);
            } else {
                assert(piece.skip(1).len() == 0);
                assert(unescaped(piece.skip(1)) == Some(Seq::<char>::empty()));
                assert(seq![piece[0]] + Seq::<char>::empty() == seq![c]);
            }
        }
        lemma_unescaped_concat(escaped(arg.drop_last()), piece);
        assert(arg.drop_last() + seq![c] == arg);
    }
}

/// Quoting round-trips: every argument, quoted, reads back under MPD's grammar as the
/// argument itself.
pub proof fn law_quote_round_trip(arg: Seq<char>)
    ensures
        unquoted(quoted(arg)) == Some(arg),
{
    lemma_escape_round_trip(arg);
    let q = quoted(arg);
    assert(q.subrange(1, q.len() - 1) == escaped(arg));
}

/// Appends `arg`, escaped, to `out`, unless it holds a line feed.
fn push_escaped(out: &mut Vec<char>, arg: &Vec<char>) -> (ok: bool)
    ensures
        ok == !arg@.contains('\n'),
        ok ==> final(out)@ == old(out)@ + escaped(arg@),
{
    let mut i: usize = 0;
    assert(arg@.take(0) == Seq::<char>::empty());
    assert(out@ + Seq::<char>::empty() == out@);
    while i < arg.len()
        invariant
            i <= arg.len(),
            !arg@.take(i as int).contains('\n'),
            out@ == old(out)@ + escaped(arg@.take(i as int)),
        decreases arg.len() - i,
    {
        let c = arg[i];
        if c == '\n' {
            return false;
        }
        proof {
            let pre = arg@.take(i as int);
            let cur = arg@.take(i + 1);
            assert(cur.drop_last() == pre);
            assert(cur.last() == c);
            assert(!cur.contains('\n')) by {
                if cur.contains('\n') {
                    let k = choose|k: int| 0 <= k < cur.len() && cur[k] == '\n';
                    assert(pre[k] == '\n');
                }
            }
            if c == '"' || c == '\\' {
                assert(old(out)@ + escaped(cur) == (old(out)@ + escaped(pre)).push('\\').push(c));
            } else {
                assert(old(out)@ + escaped(cur) == (old(out)@ + escaped(pre)).push(c));
            }
        }
        if c == '"' || c == '\\' {
            out.push('\\');
        }
        out.push(c);
        i += 1;
    }
    assert(arg@.take(arg@.len() as int) == arg@);
    true
}

/// Quotes one argument of a command. An argument that holds a line feed is refused.
pub fn quote(arg: &str) -> (r: Result<String, ProtocolError>)
    ensures
        r is Ok <==> !arg@.contains('\n'),
        r is Ok ==> r->Ok_0@ == quoted(arg@),
        r is Ok ==> unquoted(r->Ok_0@) == Some(arg@),
        r is Err ==> r->Err_0 is NewlineInArgument,
{
    let a = chars_of(arg);
    let mut out: Vec<char> = Vec::new();
    out.push('"');
    if !push_escaped(&mut out, &a) {
        return Err(ProtocolError::NewlineInArgument);
    }
    out.push('"');
    proof {
        law_quote_round_trip(arg@);
        assert(out@ == quoted(arg@));
    }
    Ok(string_of(&out))
}

/// The views of a list of arguments.
pub open spec fn args_view(args: Seq<&str>) -> Seq<Seq<char>> {
    args.map_values(|a: &str| a@)
}

/// The arguments `args` as they follow the name of a command: each after a space, quoted.
pub open spec fn quoted_args(args: Seq<Seq<char>>) -> Seq<char>
    decreases args.len(),
{
    if args.len() == 0 {
        Seq::empty()
    } else {
        quoted_args(args.drop_last()) + seq![' '] + quoted(args.last())
    }
}

/// The line that sends the command `cmd` with the arguments `args`.
pub open spec fn command_line(cmd: Seq<char>, args: Seq<Seq<char>>) -> Seq<char> {
    cmd + quoted_args(args) + seq!['\n']
}

/// Whether some argument holds a line feed.
pub open spec fn any_newline(args: Seq<Seq<char>>) -> bool {
    exists|i: int| 0 <= i < args.len() && (#[trigger] args[i]).contains('\n')
}

/// Frames a command: its name, then each argument after a space and in quotes, then a
/// line feed. A command with an argument that holds a line feed is refused.
pub fn format_command(cmd: &str, args: &[&str]) -> (r: Result<String, ProtocolError>)
    ensures
        r is Ok <==> !any_newline(args_view(args@)),
        r is Ok ==> r->Ok_0@ == command_line(cmd@, args_view(args@)),
        r is Err ==> r->Err_0 is NewlineInArgument,
{
    let mut out = chars_of(cmd);
    let ghost all = args_view(args@);
    let mut i: usize = 0;
    assert(all.take(0) == Seq::<Seq<char>>::empty());
    assert(cmd@ + Seq::<char>::empty() == cmd@);
    while i < args.len()
        invariant
            i <= args.len(),
            all == args_view(args@),
            !any_newline(all.take(i as int)),
            out@ == cmd@ + quoted_args(all.take(i as int)),
        decreases args.len() - i,
    {
        let a = chars_of(args[i]);
        let ghost before = out@;
        out.push(' ');
        out.push('"');
        if !push_escaped(&mut out, &a) {
            assert(all[i as int].contains('\n'));
            return Err(ProtocolError::NewlineInArgument);
        }
        out.push('"');
        proof {
            let pre = all.take(i as int);
            let cur = all.take(i + 1);
            assert(cur.drop_last() == pre);
            assert(cur.last() == a@);
            assert(out@ == before + seq![' '] + quoted(a@));
            assert(out@ == cmd@ + quoted_args(cur));
            assert(!any_newline(cur)) by {
                if any_newline(cur) {
                    let k = choose|k: int| 0 <= k < cur.len() && (#[trigger] cur[k]).contains('\n');
                    if k < i {
                        assert(pre[k].contains('\n'));
                    }
                }
            }
        }
        i += 1;
    }
    assert(all.take(all.len() as int) == all);
    out.push('\n');
    Ok(string_of(&out))
}

/// The attributes of a response: its `Key: Value` lines, in the order in which they came.
#[derive(Debug, Clone, PartialEq, Eq)]
pub struct Attributes {
    pub pairs: Vec<(String, String)>,
}

/// The contents of a list of pairs of strings.
pub open spec fn pairs_view(pairs: Seq<(String, String)>) -> Seq<(Seq<char>, Seq<char>)> {
    pairs.map_values(|p: (String, String)| (p.0@, p.1@))
}

impl View for Attributes {
    type V = Seq<(Seq<char>, Seq<char>)>;

    open spec fn view(&self) -> Seq<(Seq<char>, Seq<char>)> {
        pairs_view(self.pairs@)
    }
}

/// The value of the first attribute of `attrs` named `key`, if there is one.
pub open spec fn first_value(attrs: Seq<(Seq<char>, Seq<char>)>, key: Seq<char>) -> Option<
    Seq<char>,
>
    decreases attrs.len(),
{
    if attrs.len() == 0 {
        None
    } else if attrs[0].0 == key {
        Some(attrs[0].1)
    } else {
        first_value(attrs.skip(1), key)
    }
}

/// The values of all the attributes of `attrs` named `key`, in order.
pub open spec fn all_values(attrs: Seq<(Seq<char>, Seq<char>)>, key: Seq<char>) -> Seq<
    Seq<char>,
>
    decreases attrs.len(),
{
    if attrs.len() == 0 {
        Seq::empty()
    } else if attrs.last().0 == key {
        all_values(attrs.drop_last(), key).push(attrs.last().1)
    } else {
        all_values(attrs.drop_last(), key)
    }
}

/// The number of attributes of `attrs` named `key`.
pub open spec fn occurrences(attrs: Seq<(Seq<char>, Seq<char>)>, key: Seq<char>) -> nat {
    all_values(attrs, key).len()
}

/// The groups into which `key` splits `attrs`: a group starts at each attribute named
/// `key` and runs up to the next one. What comes before the first such attribute
/// belongs to no group.
pub open spec fn groups(attrs: Seq<(Seq<char>, Seq<char>)>, key: Seq<char>) -> Seq<
    Seq<(Seq<char>, Seq<char>)>,
>
    decreases attrs.len(),
{
    if attrs.len() == 0 {
        Seq::empty()
    } else {
        let before = groups(attrs.drop_last(), key);
        if attrs.last().0 == key {
            before.push(seq![attrs.last()])
        } else if before.len() == 0 {
            before
        } else {
            before.update(before.len() - 1, before.last().push(attrs.last()))
        }
    }
}

/// The groups of `gs` one after the other.
pub open spec fn flattened(gs: Seq<Seq<(Seq<char>, Seq<char>)>>) -> Seq<(Seq<char>, Seq<char>)>
    decreases gs.len(),
{
    if gs.len() == 0 {
        Seq::empty()
    } else {
        flattened(gs.drop_last()) + gs.last()
    }
}

/// Where the first attribute named `key` stands in `attrs`, or the length of `attrs`
/// where there is none.
pub open spec fn first_key(attrs: Seq<(Seq<char>, Seq<char>)>, key: Seq<char>) -> int
    decreases attrs.len(),
{
    if attrs.len() == 0 {
        0
    } else if attrs[0].0 == key {
        0
    } else {
        1 + first_key(attrs.skip(1), key)
    }
}

/// Replacing the last group does not touch what the groups before it hold.
proof fn lemma_flattened_update_last(
    gs: Seq<Seq<(Seq<char>, Seq<char>)>>,
    g: Seq<(Seq<char>, Seq<char>)>,
)
    requires
        gs.len() > 0,
    ensures
        flattened(gs.update(gs.len() - 1, g)) == flattened(gs.drop_last()) + g,
{
    let u = gs.update(gs.len() - 1, g);
    assert(u.drop_last() == gs.drop_last());
}

/// The place of the first `key` does not move when an attribute is added at the end,
/// unless there was none before.
proof fn lemma_first_key_push(attrs: Seq<(Seq<char>, Seq<char>)>, key: Seq<char>)
    requires
        attrs.len() > 0,
    ensures
        0 <= first_key(attrs.drop_last(), key) <= attrs.len() - 1,
        first_key(attrs.drop_last(), key) < attrs.len() - 1 ==> first_key(attrs, key)
            == first_key(attrs.drop_last(), key),
        first_key(attrs.drop_last(), key) == attrs.len() - 1 ==> first_key(attrs, key) == (
        if attrs.last().0 == key {
            attrs.len() - 1
        } else {
            attrs.len() as int
        }),
    decreases attrs.len(),
{
    if attrs.len() == 1 {
        assert(attrs.drop_last().len() == 0);
        assert(attrs.skip(1).len() == 0);
        assert(first_key(attrs.skip(1), key) == 0);
        assert(first_key(attrs.drop_last(), key) == 0);
    } else if attrs[0].0 == key {
        assert(attrs.drop_last()[0] == attrs[0]);
    } else {
        assert(attrs.drop_last()[0] == attrs[0]);
        assert(attrs.drop_last().skip(1) == attrs.skip(1).drop_last());
        assert(attrs.skip(1).last() == attrs.last());
        lemma_first_key_push(attrs.skip(1), key);
    }
}

/// Splitting is exact: `key` splits `attrs` into as many groups as `attrs` has
/// attributes named `key`; every group begins with such an attribute and holds no other;
/// and the groups, one after the other, are `attrs` from the first such attribute on.
pub proof fn law_split_groups(attrs: Seq<(Seq<char>, Seq<char>)>, key: Seq<char>)
    ensures
        groups(attrs, key).len() == occurrences(attrs, key),
        forall|i: int|
            0 <= i < groups(attrs, key).len() ==> (#[trigger] groups(attrs, key)[i]).len() > 0
                && groups(attrs, key)[i][0].0 == key && occurrences(groups(attrs, key)[i], key)
                == 1,
        0 <= first_key(attrs, key) <= attrs.len(),
        flattened(groups(attrs, key)) == attrs.skip(first_key(attrs, key)),
    decreases attrs.len(),
{
    if attrs.len() == 0 {
    } else {
        let init = attrs.drop_last();
        let last = attrs.last();
        let before = groups(init, key);
        law_split_groups(init, key);
        lemma_first_key_push(attrs, key);
        let gs = groups(attrs, key);
        let k = first_key(init, key);
        if last.0 == key {
            assert(gs.drop_last() == before);
            let g = seq![last];
            assert(g.drop_last().len() == 0);
            assert(all_values(g.drop_last(), key) == Seq::<Seq<char>>::empty());
            assert(all_values(g, key) == Seq::<Seq<char>>::empty().push(last.1));
            assert(init.skip(k) + g == attrs.skip(k));
            if k == init.len() {
                assert(first_key(attrs, key) == k);
            }
        } else if before.len() == 0 {
            assert(init.skip(k).len() == 0);
            assert(k == init.len());
            assert(attrs.skip(attrs.len() as int).len() == 0);
        } else {
            let g = before.last().push(last);
            lemma_flattened_update_last(before, g);
            assert(g.drop_last() == before.last());
            assert(flattened(before) == flattened(before.drop_last()) + before.last());
            assert(flattened(before.drop_last()) + g == (flattened(before.drop_last())
                + before.last()).push(last));
            assert(init.skip(k).push(last) == attrs.skip(k));
            assert(init.skip(k).len() > 0) by {
                assert(before.last().len() > 0);
            }
        }
    }
}

impl Attributes {
    /// No attributes.
    pub fn new() -> (a: Self)
        ensures
            a@ == Seq::<(Seq<char>, Seq<char>)>::empty(),
    {
        Attributes { pairs: Vec::new() }
    }

    /// Adds an attribute at the end.
    pub fn push(&mut self, key: String, value: String)
        ensures
            final(self)@ == old(self)@.push((key@, value@)),
    {
        self.pairs.push((key, value));
        assert(pairs_view(self.pairs@) =~= pairs_view(old(self).pairs@).push((key@, value@)));
    }

    /// The number of attributes.
    pub fn len(&self) -> (n: usize)
        ensures
            n == self@.len(),
    {
        self.pairs.len()
    }

    /// The value of the first attribute named `key`, if there is one.
    pub fn get_one(&self, key: &str) -> (value: Option<&str>)
        ensures
            value is Some <==> first_value(self@, key@) is Some,
            value is Some ==> value->0@ == first_value(self@, key@)->0,
    {
        let mut i: usize = 0;
        assert(self@.skip(0) == self@);
        while i < self.pairs.len()
            invariant
                i <= self.pairs.len(),
                first_value(self@, key@) == first_value(self@.skip(i as int), key@),
            decreases self.pairs.len() - i,
        {
            assert(self@.skip(i as int)[0] == self@[i as int]);
            assert(self@.skip(i as int).skip(1) == self@.skip(i + 1));
            if same_text(self.pairs[i].0.as_str(), key) {
                return Some(self.pairs[i].1.as_str());
            }
            i += 1;
        }
        None
    }

    /// The values of all the attributes named `key`, in order.
    pub fn get_all(&self, key: &str) -> (values: Vec<String>)
        ensures
            values@.map_values(|s: String| s@) == all_values(self@, key@),
    {
        let mut out: Vec<String> = Vec::new();
        let mut i: usize = 0;
        assert(self@.take(0).len() == 0);
        assert(out@.map_values(|s: String| s@) =~= Seq::<Seq<char>>::empty());
        while i < self.pairs.len()
            invariant
                i <= self.pairs.len(),
                out@.map_values(|s: String| s@) == all_values(self@.take(i as int), key@),
            decreases self.pairs.len() - i,
        {
            assert(self@.take(i + 1).drop_last() == self@.take(i as int));
            assert(self@.take(i + 1).last() == self@[i as int]);
            if same_text(self.pairs[i].0.as_str(), key) {
                let ghost before = out@;
                let v = self.pairs[i].1.clone();
                out.push(v);
                assert(out@.map_values(|s: String| s@) =~= before.map_values(|s: String| s@).push(
                    v@,
                ));
            }
            i += 1;
        }
        assert(self@.take(self@.len() as int) == self@);
        out
    }

    /// Splits the attributes into groups, one for each attribute named `key`: a group
    /// starts at such an attribute and runs up to the next one. Attributes before the
    /// first one named `key` are left out.
    pub fn split_at(&self, key: &str) -> (parts: Vec<Attributes>)
        ensures
            parts@.map_values(|a: Attributes| a@) == groups(self@, key@),
            parts@.len() == occurrences(self@, key@),
            forall|i: int|
                0 <= i < parts@.len() ==> (#[trigger] parts@[i])@.len() > 0 && parts@[i]@[0].0
                    == key@,
    {
        let mut out: Vec<Attributes> = Vec::new();
        let mut current: Option<Attributes> = None;
        let mut i: usize = 0;
        assert(self@.take(0).len() == 0);
        assert(out@.map_values(|a: Attributes| a@) =~= Seq::<
            Seq<(Seq<char>, Seq<char>)>,
        >::empty());
        while i < self.pairs.len()
            invariant
                i <= self.pairs.len(),
                match current {
                    Some(c) => groups(self@.take(i as int), key@) == out@.map_values(
                        |a: Attributes| a@,
                    ).push(c@),
                    None => groups(self@.take(i as int), key@).len() == 0 && out@.len() == 0,
                },
            decreases self.pairs.len() - i,
        {
            proof {
                assert(self@.take(i + 1).drop_last() == self@.take(i as int));
                assert(self@.take(i + 1).last() == self@[i as int]);
            }
            let k = self.pairs[i].0.clone();
            let v = self.pairs[i].1.clone();
            if same_text(k.as_str(), key) {
                if let Some(c) = current {
                    let ghost before = out@;
                    out.push(c);
                    assert(out@.map_values(|a: Attributes| a@) =~= before.map_values(
                        |a: Attributes| a@,
                    ).push(c@));
                }
                let mut fresh = Attributes::new();
                fresh.push(k, v);
                assert(fresh@ =~= seq![self@[i as int]]);
                current = Some(fresh);
            } else {
                match current {
                    Some(mut c) => {
                        let ghost old_c = c@;
                        c.push(k, v);
                        proof {
                            let m = out@.map_values(|a: Attributes| a@);
                            let before = m.push(old_c);
                            assert(before.update(before.len() - 1, before.last().push(self@[i as int]))
                                =~= m.push(c@));
                        }
                        current = Some(c);
                    },
                    None => {
                        current = None;
                    },
                }
            }
            i += 1;
        }
        assert(self@.take(self@.len() as int) == self@);
        if let Some(c) = current {
            let ghost before = out@;
            out.push(c);
            assert(out@.map_values(|a: Attributes| a@) =~= before.map_values(|a: Attributes| a@).push(
                c@,
            ));
        }
        proof {
            law_split_groups(self@, key@);
            assert forall|i: int| 0 <= i < out@.len() implies (#[trigger] out@[i])@.len() > 0
                && out@[i]@[0].0 == key@ by {
                assert(out@.map_values(|a: Attributes| a@)[i] == out@[i]@);
            }
        }
        out
    }
}

/// A successful response.
#[derive(Debug, Clone, PartialEq, Eq)]
pub struct OkResponse {
    pub attributes: Attributes,
    pub binary: Option<Vec<u8>>,
}

/// The response `ACK <text>`, by which MPD refuses a command.
#[derive(Debug, Clone, PartialEq, Eq)]
pub struct ErrorAck {
    /// The text after `ACK `.
    pub line: String,
}

impl ErrorAck {
    /// The message for this refusal.
    pub fn message(&self) -> (m: String)
        ensures
            m@ == "mpd error response: "@ + self.line@,
    {
        let mut out: Vec<char> = Vec::new();
        push_str(&mut out, "mpd error response: ");
        push_str(&mut out, self.line.as_str());
        assert(out@ =~= "mpd error response: "@ + self.line@);
        string_of(&out)
    }
}

/// What one line of a response means.
pub enum ResponseLine {
    /// `OK`: the response ends here, successfully.
    Done,
    /// `ACK <text>`: the response ends here, with a refusal.
    Ack(Seq<char>),
    /// `binary: <N>`: N bytes and a line feed follow. `None` where N is no number.
    Binary(Option<int>, Seq<char>),
    /// `Key: Value`.
    Pair(Seq<char>, Seq<char>),
    /// A line of no known shape.
    Unrecognised,
}

/// What stands between the key and the value of an attribute.
pub open spec fn pair_separator() -> Seq<char> {
    ": "@
}

/// The grammar of a response: what a line, without the white space at its end, means.
/// The shapes are tried in this order.
pub open spec fn response_line_of(line: Seq<char>) -> ResponseLine {
    if line == "OK"@ {
        ResponseLine::Done
    } else if "ACK "@.is_prefix_of(line) {
        ResponseLine::Ack(line.skip("ACK "@.len() as int))
    } else if "binary: "@.is_prefix_of(line) {
        let text = line.skip("binary: "@.len() as int);
        if plus_decimal(text) is Some && plus_decimal(text)->0 <= usize::MAX {
            ResponseLine::Binary(Some(plus_decimal(text)->0), text)
        } else {
            ResponseLine::Binary(None, text)
        }
    } else {
        match first_at(line, 0, pair_separator()) {
            Some(k) => ResponseLine::Pair(line.take(k), line.skip(k + pair_separator().len())),
            None => ResponseLine::Unrecognised,
        }
    }
}

/// A response that is being read.
#[derive(Debug)]
pub struct ResponseReader {
    pub attributes: Attributes,
    pub binary: Option<Vec<u8>>,
}

/// What is to be done after a line or a block of binary data was taken into account.
#[derive(Debug)]
pub enum Step {
    /// Read another line and hand it to `on_line`.
    Line(ResponseReader),
    /// Read this many bytes and one byte more, and hand them to `on_binary`.
    Binary(ResponseReader, usize),
    /// The response is complete.
    Done(Result<OkResponse, ErrorAck>),
    /// The response cannot be read.
    Failed(ProtocolError),
}

impl ResponseReader {
    /// A response of which nothing has been read.
    pub fn new() -> (r: Self)
        ensures
            r.attributes@ == Seq::<(Seq<char>, Seq<char>)>::empty(),
            r.binary is None,
    {
        ResponseReader { attributes: Attributes::new(), binary: None }
    }

    /// Takes one line into account. `read` is the number of bytes that the read returned,
    /// zero at the end of the connection, and `raw` the text it gave.
    pub fn on_line(self, read: usize, raw: &str) -> (step: Step)
        ensures
            read == 0 ==> step is Failed && step->Failed_0 is ConnectionEof,
            read != 0 ==> match response_line_of(trim_end(raw@)) {
                ResponseLine::Done => step is Done && step->Done_0 is Ok
                    && step->Done_0->Ok_0.attributes@ == self.attributes@
                    && step->Done_0->Ok_0.binary == self.binary,
                ResponseLine::Ack(text) => step is Done && step->Done_0 is Err
                    && step->Done_0->Err_0.line@ == text,
                ResponseLine::Binary(Some(n), _) => step is Binary && step->Binary_1 == n
                    && step->Binary_0.attributes@ == self.attributes@ && step->Binary_0.binary
                    == self.binary,
                ResponseLine::Binary(None, text) => step is Failed
                    && step->Failed_0 is BinaryLength && step->Failed_0->BinaryLength_0@ == text,
                ResponseLine::Pair(key, value) => step is Line && step->Line_0.attributes@
                    == self.attributes@.push((key, value)) && step->Line_0.binary == self.binary,
                ResponseLine::Unrecognised => step is Failed
                    && step->Failed_0 is UnrecognisedLine && step->Failed_0->UnrecognisedLine_0@
                    == trim_end(raw@),
            },
    {
        if read == 0 {
            return Step::Failed(ProtocolError::ConnectionEof);
        }
        let v = trimmed_right(raw);
        if equals_str(&v, "OK") {
            return Step::Done(Ok(OkResponse { attributes: self.attributes, binary: self.binary }));
        }
        if starts_with(&v, "ACK ") {
            let head = chars_of("ACK ");
            let line = string_between(&v, head.len(), v.len());
            assert(v@.subrange(head.len() as int, v@.len() as int) == v@.skip(head.len() as int));
            return Step::Done(Err(ErrorAck { line }));
        }
        if starts_with(&v, "binary: ") {
            let head = chars_of("binary: ");
            let mut text: Vec<char> = Vec::new();
            let mut i: usize = head.len();
            while i < v.len()
                invariant
                    head.len() <= i <= v.len(),
                    text@ == v@.subrange(head.len() as int, i as int),
                decreases v.len() - i,
            {
                text.push(v[i]);
                assert(v@.subrange(head.len() as int, i + 1) == v@.subrange(
                    head.len() as int,
                    i as int,
                ).push(v@[i as int]));
                i += 1;
            }
            assert(v@.subrange(head.len() as int, v@.len() as int) == v@.skip(head.len() as int));
            return match parse_u64(&text) {
                Some(n) => {
                    if n <= usize::MAX as u64 {
                        Step::Binary(self, n as usize)
                    } else {
                        Step::Failed(ProtocolError::BinaryLength(string_of(&text)))
                    }
                },
                None => Step::Failed(ProtocolError::BinaryLength(string_of(&text))),
            };
        }
        match find(&v, ": ") {
            Some(k) => {
                proof {
                    lemma_first_at(v@, 0, pair_separator());
                }
                let sep = chars_of(": ");
                assert(k + sep.len() <= v.len());
                let key = string_between(&v, 0, k);
                let value = string_between(&v, k + sep.len(), v.len());
                assert(v@.subrange(0, k as int) == v@.take(k as int));
                assert(v@.subrange(k + sep.len(), v@.len() as int) == v@.skip(k + sep.len()));
                let mut attributes = self.attributes;
                attributes.push(key, value);
                Step::Line(ResponseReader { attributes, binary: self.binary })
            },
            None => Step::Failed(ProtocolError::UnrecognisedLine(string_of(&v))),
        }
    }

    /// Takes a block of binary data into account, and the byte that followed it.
    pub fn on_binary(self, data: Vec<u8>, terminator: u8) -> (step: Step)
        ensures
            terminator == 0x0a ==> step is Line && step->Line_0.attributes@ == self.attributes@
                && step->Line_0.binary == Some(data),
            terminator != 0x0a ==> step is Failed && step->Failed_0 is BinaryNotTerminated,
    {
        if terminator == 0x0a {
            Step::Line(ResponseReader { attributes: self.attributes, binary: Some(data) })
        } else {
            Step::Failed(ProtocolError::BinaryNotTerminated)
        }
    }
}

} // verus!
