//! The command language typed into the input field: a colon command
//! token, case-folded, followed by space-separated arguments.  Parsing
//! is exact: every command's payload is pinned to the token list of
//! the input.

use vstd::prelude::*;
use crate::layout::string_views;
use crate::text::{all_dec_digits, chars_to_string, dec_value, parse_usize, slice_chars};
use crate::wrap::line_views;

verus! {

/// Splits on single spaces, keeping empty tokens, as the command
/// syntax does; there is always at least one token.
pub open spec fn tokens_acc(s: Seq<char>, cur: Seq<char>, acc: Seq<Seq<char>>) -> Seq<Seq<char>>
    decreases s.len(),
{
    if s.len() == 0 {
        acc.push(cur)
    } else if s[0] == ' ' {
        tokens_acc(s.drop_first(), Seq::empty(), acc.push(cur))
    } else {
        tokens_acc(s.drop_first(), cur.push(s[0]), acc)
    }
}

pub open spec fn tokens(s: Seq<char>) -> Seq<Seq<char>> {
    tokens_acc(s, Seq::empty(), Seq::empty())
}

pub proof fn lemma_tokens_nonempty(s: Seq<char>, cur: Seq<char>, acc: Seq<Seq<char>>)
    ensures
        tokens_acc(s, cur, acc).len() > acc.len(),
    decreases s.len(),
{
    if s.len() > 0 {
        if s[0] == ' ' {
            lemma_tokens_nonempty(s.drop_first(), Seq::empty(), acc.push(cur));
        } else {
            lemma_tokens_nonempty(s.drop_first(), cur.push(s[0]), acc);
        }
    }
}

/// ASCII case folding of one character.
pub open spec fn lower_char(c: char) -> char {
    if 'A' <= c <= 'Z' {
        ((c as u8) + 32) as char
    } else {
        c
    }
}

pub open spec fn lower_seq(s: Seq<char>) -> Seq<char> {
    Seq::new(s.len(), |i: int| lower_char(s[i]))
}

/// The arguments joined back with single spaces (a message body).
pub open spec fn join_spaces(args: Seq<Seq<char>>) -> Seq<char>
    decreases args.len(),
{
    if args.len() == 0 {
        Seq::empty()
    } else if args.len() == 1 {
        args[0]
    } else {
        args[0] + seq![' '] + join_spaces(args.drop_first())
    }
}

/// The arguments concatenated with nothing between them.
pub open spec fn concat_args(args: Seq<Seq<char>>) -> Seq<char>
    decreases args.len(),
{
    if args.len() == 0 {
        Seq::empty()
    } else {
        args[0] + concat_args(args.drop_first())
    }
}

/// A command typed into the input field, with its parsed payload.
/// Index-taking commands carry the parsed index and the raw argument
/// it came from, so a bad argument can be echoed back.
pub enum Command {
    Quit,
    SelectChat(Option<usize>, Option<String>),
    ShowHelp,
    SendText(String),
    Reload,
    Bind(Vec<String>),
    OpenAttachment(Option<usize>, Option<String>),
    SendFiles(String),
    Tapback(String),
    Compose,
    DeleteText,
    DeleteChat(Option<String>),
    CopyText,
    Unknown(String),
}

pub fn chars_eq(a: &Vec<char>, b: &Vec<char>) -> (r: bool)
    ensures
        r == (a@ == b@),
{
    if a.len() != b.len() {
        return false;
    }
    let mut i: usize = 0;
    while i < a.len()
        invariant
            0 <= i <= a@.len(),
            a@.len() == b@.len(),
            a@.subrange(0, i as int) =~= b@.subrange(0, i as int),
        decreases a@.len() - i,
    {
        if a[i] != b[i] {
            return false;
        }
        proof {
            assert(a@.subrange(0, i + 1) =~= b@.subrange(0, i + 1));
        }
        i = i + 1;
    }
    proof {
        assert(a@.subrange(0, a@.len() as int) =~= a@);
        assert(b@.subrange(0, b@.len() as int) =~= b@);
    }
    true
}

fn split_tokens(v: &Vec<char>) -> (r: Vec<Vec<char>>)
    ensures
        line_views(r@) == tokens(v@),
        r@.len() > 0,
{
    let mut acc: Vec<Vec<char>> = Vec::new();
    let mut cur: Vec<char> = Vec::new();
    let mut i: usize = 0;
    proof {
        assert(line_views(acc@) =~= Seq::<Seq<char>>::empty());
        assert(v@.subrange(0, v@.len() as int) =~= v@);
    }
    while i < v.len()
        invariant
            0 <= i <= v@.len(),
            tokens(v@) == tokens_acc(
                v@.subrange(i as int, v@.len() as int),
                cur@,
                line_views(acc@),
            ),
        decreases v@.len() - i,
    {
        let ghost rest = v@.subrange(i as int, v@.len() as int);
        proof {
            assert(rest[0] == v@[i as int]);
            assert(rest.drop_first() =~= v@.subrange(i + 1, v@.len() as int));
        }
        if v[i] == ' ' {
            let ghost acc0 = acc@;
            acc.push(cur);
            cur = Vec::new();
            proof {
                assert(line_views(acc@) =~= line_views(acc0).push(acc@[acc@.len() - 1]@));
            }
        } else {
            cur.push(v[i]);
        }
        i = i + 1;
    }
    proof {
        assert(v@.subrange(v@.len() as int, v@.len() as int) =~= Seq::<char>::empty());
    }
    let ghost acc1 = acc@;
    acc.push(cur);
    proof {
        assert(line_views(acc@) =~= line_views(acc1).push(acc@[acc@.len() - 1]@));
        lemma_tokens_nonempty(v@, Seq::empty(), Seq::empty());
    }
    acc
}

fn lower_chars(v: &Vec<char>) -> (r: Vec<char>)
    ensures
        r@ == lower_seq(v@),
{
    let mut r: Vec<char> = Vec::new();
    let mut i: usize = 0;
    while i < v.len()
        invariant
            0 <= i <= v@.len(),
            r@ =~= lower_seq(v@).subrange(0, i as int),
        decreases v@.len() - i,
    {
        let c = v[i];
        let lc: char = if 'A' <= c && c <= 'Z' {
            ((c as u8) + 32) as char
        } else {
            c
        };
        r.push(lc);
        proof {
            assert(lower_seq(v@)[i as int] == lower_char(v@[i as int]));
            assert(r@ =~= lower_seq(v@).subrange(0, i + 1));
        }
        i = i + 1;
    }
    proof {
        assert(lower_seq(v@).subrange(0, v@.len() as int) =~= lower_seq(v@));
    }
    r
}

fn join_from(toks: &Vec<Vec<char>>, from: usize) -> (r: Vec<char>)
    requires
        from <= toks@.len(),
    ensures
        r@ == join_spaces(line_views(toks@).subrange(from as int, toks@.len() as int)),
    decreases toks@.len() - from,
{
    let ghost s = line_views(toks@).subrange(from as int, toks@.len() as int);
    if from == toks.len() {
        let r: Vec<char> = Vec::new();
        proof {
            assert(r@ =~= join_spaces(s));
        }
        r
    } else if from + 1 == toks.len() {
        let r = slice_chars(&toks[from], 0, toks[from].len());
        proof {
            assert(s.len() == 1);
            assert(s[0] == toks@[from as int]@);
            assert(r@ =~= join_spaces(s));
        }
        r
    } else {
        proof {
            assert(s[0] == toks@[from as int]@);
            assert(s.drop_first() =~= line_views(toks@).subrange(from + 1, toks@.len() as int));
        }
        let mut r = slice_chars(&toks[from], 0, toks[from].len());
        r.push(' ');
        let rest = join_from(toks, from + 1);
        crate::text::push_chars(&mut r, &rest);
        proof {
            assert(r@ =~= join_spaces(s));
        }
        r
    }
}

fn concat_from(toks: &Vec<Vec<char>>, from: usize) -> (r: Vec<char>)
    requires
        from <= toks@.len(),
    ensures
        r@ == concat_args(line_views(toks@).subrange(from as int, toks@.len() as int)),
    decreases toks@.len() - from,
{
    let ghost s = line_views(toks@).subrange(from as int, toks@.len() as int);
    if from == toks.len() {
        let r: Vec<char> = Vec::new();
        proof {
            assert(r@ =~= concat_args(s));
        }
        r
    } else {
        proof {
            assert(s[0] == toks@[from as int]@);
            assert(s.drop_first() =~= line_views(toks@).subrange(from + 1, toks@.len() as int));
        }
        let mut r = slice_chars(&toks[from], 0, toks[from].len());
        let rest = concat_from(toks, from + 1);
        crate::text::push_chars(&mut r, &rest);
        proof {
            assert(r@ =~= concat_args(s));
        }
        r
    }
}

/// The strings joined back with single spaces.
pub fn join_strings(parts: &Vec<String>, from: usize) -> (r: String)
    requires
        from <= parts@.len(),
    ensures
        r@ == join_spaces(string_views(parts@).subrange(from as int, parts@.len() as int)),
    decreases parts@.len() - from,
{
    let ghost s = string_views(parts@).subrange(from as int, parts@.len() as int);
    if from == parts.len() {
        let r = String::new();
        proof {
            assert(r@ =~= join_spaces(s));
        }
        r
    } else if from + 1 == parts.len() {
        let r = parts[from].clone();
        proof {
            assert(s.len() == 1);
            assert(s[0] == parts@[from as int]@);
            assert(r@ =~= join_spaces(s));
        }
        r
    } else {
        proof {
            assert(s[0] == parts@[from as int]@);
            assert(s.drop_first() =~= string_views(parts@).subrange(from + 1, parts@.len() as int));
        }
        let mut r = crate::text::str_to_chars(parts[from].as_str());
        r.push(' ');
        let rest = join_strings(parts, from + 1);
        let rest_chars = crate::text::str_to_chars(rest.as_str());
        crate::text::push_chars(&mut r, &rest_chars);
        let out = chars_to_string(&r);
        proof {
            assert(out@ =~= join_spaces(s));
        }
        out
    }
}

/// Whether the index command's argument parses, and to what.
pub open spec fn parsed_index(arg: Seq<char>) -> Option<int> {
    if arg.len() > 0 && all_dec_digits(arg) && dec_value(arg) <= usize::MAX {
        Some(dec_value(arg) as int)
    } else {
        None
    }
}

/// Parses one full input line into a command.
pub fn parse_command(input: &String) -> (r: Command)
    ensures
        ({
            let toks = tokens(input@);
            let cmd = lower_seq(toks[0]);
            let args = toks.drop_first();
            &&& (cmd == seq![':', 'q'] ==> r is Quit)
            &&& (cmd == seq![':', 'h'] ==> r is ShowHelp)
            &&& (cmd == seq![':', 'r'] ==> r is Reload)
            &&& (cmd == seq![':', 'n'] ==> r is Compose)
            &&& (cmd == seq![':', 'y'] ==> r is CopyText)
            &&& (cmd == seq![':', 'd', 't'] ==> r is DeleteText)
            &&& (cmd == seq![':', 's'] ==> (r matches Command::SendText(t) && t@ == join_spaces(
                args,
            )))
            &&& (cmd == seq![':', 'f'] ==> (r matches Command::SendFiles(t) && t@ == join_spaces(
                args,
            )))
            &&& (cmd == seq![':', 't'] ==> (r matches Command::Tapback(t) && t@ == concat_args(
                args,
            )))
            &&& (cmd == seq![':', 'b'] ==> (r matches Command::Bind(ops) && string_views(ops@)
                == args))
            &&& (cmd == seq![':', 'c'] ==> (r matches Command::SelectChat(idx, raw) && ({
                &&& (args.len() > 0 && args[0].len() > 0) <==> raw is Some
                &&& (raw matches Some(t) ==> t@ == args[0])
                &&& (raw is Some ==> ({
                    &&& (idx is Some <==> parsed_index(args[0]) is Some)
                    &&& (idx matches Some(v) ==> parsed_index(args[0]) == Some(v as int))
                }))
                &&& (raw is None ==> idx is None)
            })))
            &&& (cmd == seq![':', 'a'] ==> (r matches Command::OpenAttachment(idx, raw) && ({
                &&& (args.len() > 0) <==> raw is Some
                &&& (raw matches Some(t) ==> t@ == args[0])
                &&& (raw is Some ==> ({
                    &&& (idx is Some <==> parsed_index(args[0]) is Some)
                    &&& (idx matches Some(v) ==> parsed_index(args[0]) == Some(v as int))
                }))
                &&& (raw is None ==> idx is None)
            })))
            &&& (cmd == seq![':', 'd', 'c'] ==> (r matches Command::DeleteChat(arg) && ({
                &&& (args.len() > 0) <==> arg is Some
                &&& (arg matches Some(t) ==> t@ == args[0])
            })))
            &&& (!(cmd == seq![':', 'q']) && !(cmd == seq![':', 'h']) && !(cmd == seq![':', 'r'])
                && !(cmd == seq![':', 'n']) && !(cmd == seq![':', 'y']) && !(cmd == seq![
                ':',
                'd',
                't',
            ]) && !(cmd == seq![':', 's']) && !(cmd == seq![':', 'f']) && !(cmd == seq![':', 't'])
                && !(cmd == seq![':', 'b']) && !(cmd == seq![':', 'c']) && !(cmd == seq![':', 'a'])
                && !(cmd == seq![':', 'd', 'c']) ==> (r matches Command::Unknown(u) && u@ == cmd))
        }),
{
    let chars = crate::text::str_to_chars(input.as_str());
    let toks = split_tokens(&chars);
    let cmd = lower_chars(&toks[0]);
    proof {
        assert(line_views(toks@)[0] == toks@[0]@);
        assert(line_views(toks@).subrange(1, toks@.len() as int) =~= tokens(
            input@,
        ).drop_first());
    }
    let pat_q: Vec<char> = vec![':', 'q'];
    let pat_h: Vec<char> = vec![':', 'h'];
    let pat_r: Vec<char> = vec![':', 'r'];
    let pat_n: Vec<char> = vec![':', 'n'];
    let pat_y: Vec<char> = vec![':', 'y'];
    let pat_dt: Vec<char> = vec![':', 'd', 't'];
    let pat_s: Vec<char> = vec![':', 's'];
    let pat_f: Vec<char> = vec![':', 'f'];
    let pat_t: Vec<char> = vec![':', 't'];
    let pat_b: Vec<char> = vec![':', 'b'];
    let pat_c: Vec<char> = vec![':', 'c'];
    let pat_a: Vec<char> = vec![':', 'a'];
    let pat_dc: Vec<char> = vec![':', 'd', 'c'];
    if chars_eq(&cmd, &pat_q) {
        Command::Quit
    } else if chars_eq(&cmd, &pat_h) {
        Command::ShowHelp
    } else if chars_eq(&cmd, &pat_r) {
        Command::Reload
    } else if chars_eq(&cmd, &pat_n) {
        Command::Compose
    } else if chars_eq(&cmd, &pat_y) {
        Command::CopyText
    } else if chars_eq(&cmd, &pat_dt) {
        Command::DeleteText
    } else if chars_eq(&cmd, &pat_s) {
        let body = join_from(&toks, 1);
        Command::SendText(chars_to_string(&body))
    } else if chars_eq(&cmd, &pat_f) {
        let body = join_from(&toks, 1);
        Command::SendFiles(chars_to_string(&body))
    } else if chars_eq(&cmd, &pat_t) {
        let body = concat_from(&toks, 1);
        Command::Tapback(chars_to_string(&body))
    } else if chars_eq(&cmd, &pat_b) {
        let mut ops: Vec<String> = Vec::new();
        let mut i: usize = 1;
        proof {
            assert(string_views(ops@) =~= line_views(toks@).subrange(1, 1));
        }
        while i < toks.len()
            invariant
                1 <= i <= toks@.len(),
                string_views(ops@) =~= line_views(toks@).subrange(1, i as int),
            decreases toks@.len() - i,
        {
            let ghost ops0 = ops@;
            let item = chars_to_string(&toks[i]);
            ops.push(item);
            proof {
                crate::layout::lemma_string_views_push(ops0, item);
                assert(line_views(toks@)[i as int] == toks@[i as int]@);
                assert(line_views(toks@).subrange(1, i + 1) =~= line_views(toks@).subrange(
                    1,
                    i as int,
                ).push(toks@[i as int]@));
                assert(string_views(ops@) =~= line_views(toks@).subrange(1, i + 1));
            }
            i = i + 1;
        }
        proof {
            assert(line_views(toks@).subrange(1, toks@.len() as int) =~= tokens(
                input@,
            ).drop_first());
        }
        Command::Bind(ops)
    } else if chars_eq(&cmd, &pat_c) {
        if toks.len() > 1 && toks[1].len() > 0 {
            proof {
                assert(line_views(toks@)[1] == toks@[1]@);
                assert(tokens(input@).drop_first()[0] == toks@[1]@);
            }
            let raw = chars_to_string(&toks[1]);
            let idx = parse_usize(&toks[1]);
            Command::SelectChat(idx, Some(raw))
        } else {
            proof {
                if toks@.len() > 1 {
                    assert(tokens(input@).drop_first()[0] == toks@[1]@);
                }
            }
            Command::SelectChat(None, None)
        }
    } else if chars_eq(&cmd, &pat_a) {
        if toks.len() > 1 {
            proof {
                assert(line_views(toks@)[1] == toks@[1]@);
                assert(tokens(input@).drop_first()[0] == toks@[1]@);
            }
            let raw = chars_to_string(&toks[1]);
            let idx = parse_usize(&toks[1]);
            Command::OpenAttachment(idx, Some(raw))
        } else {
            Command::OpenAttachment(None, None)
        }
    } else if chars_eq(&cmd, &pat_dc) {
        if toks.len() > 1 {
            proof {
                assert(line_views(toks@)[1] == toks@[1]@);
                assert(tokens(input@).drop_first()[0] == toks@[1]@);
            }
            Command::DeleteChat(Some(chars_to_string(&toks[1])))
        } else {
            Command::DeleteChat(None)
        }
    } else {
        Command::Unknown(chars_to_string(&cmd))
    }
}

} // verus!
