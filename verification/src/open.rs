//! How a session is opened: the command line of the opener.
//!
//! The configured command (by default the Zed deep link that reopens an agent
//! thread) is split on whitespace into an argv, and the `{session}` and
//! `{cwd}` placeholders are substituted inside each word. The result is run
//! directly, never through a shell: a substituted path can contain anything,
//! and it stays one argument whatever it contains. Under systemd the opener is
//! wrapped in `systemd-run --user` so that it escapes the daemon's sandbox.

use vstd::prelude::*;

use crate::text::same_text;

verus! {

/// The opener used when `ZEO_SYSTRAY_OPEN_CMD` is not set.
pub const DEFAULT_OPEN_CMD: &'static str = "xdg-open zed://agent?session={session}";

/// Whether `c` has the Unicode `White_Space` property, the whitespace of
/// `str::split_whitespace`.
pub open spec fn is_white_space(c: char) -> bool {
    let u = c as int;
    ||| 0x09 <= u <= 0x0d
    ||| u == 0x20
    ||| u == 0x85
    ||| u == 0xa0
    ||| u == 0x1680
    ||| 0x2000 <= u <= 0x200a
    ||| u == 0x2028
    ||| u == 0x2029
    ||| u == 0x202f
    ||| u == 0x205f
    ||| u == 0x3000
}

/// The word being read, if any, as a list of words.
pub open spec fn flush(cur: Seq<char>) -> Seq<Seq<char>> {
    if cur.len() > 0 {
        seq![cur]
    } else {
        Seq::empty()
    }
}

/// The words of `rest`, the first of which begins with `cur`.
pub open spec fn words_after(rest: Seq<char>, cur: Seq<char>) -> Seq<Seq<char>>
    decreases rest.len(),
{
    if rest.len() == 0 {
        flush(cur)
    } else if is_white_space(rest[0]) {
        flush(cur) + words_after(rest.drop_first(), Seq::empty())
    } else {
        words_after(rest.drop_first(), cur.push(rest[0]))
    }
}

/// The maximal runs of non-whitespace characters of `s`, in order.
pub open spec fn words(s: Seq<char>) -> Seq<Seq<char>> {
    words_after(s, Seq::empty())
}

/// `s` with every occurrence of the non-empty pattern `pat` replaced by `to`,
/// occurrences taken from left to right without overlap.
pub open spec fn replaced(s: Seq<char>, pat: Seq<char>, to: Seq<char>) -> Seq<char>
    decreases s.len(),
{
    if pat.len() == 0 || s.len() < pat.len() {
        s
    } else if s.take(pat.len() as int) == pat {
        to + replaced(s.skip(pat.len() as int), pat, to)
    } else {
        seq![s[0]] + replaced(s.skip(1), pat, to)
    }
}

/// One word of the opener command with its placeholders filled in.
pub open spec fn filled(word: Seq<char>, session_id: Seq<char>, cwd: Seq<char>) -> Seq<char> {
    replaced(replaced(word, "{session}"@, session_id), "{cwd}"@, cwd)
}

/// The argv of the opener: the words of the template, each filled in.
pub open spec fn opener_argv(template: Seq<char>, session_id: Seq<char>, cwd: Seq<char>) -> Seq<
    Seq<char>,
> {
    words(template).map_values(|w: Seq<char>| filled(w, session_id, cwd))
}

fn is_white(c: char) -> (r: bool)
    ensures
        r == is_white_space(c),
{
    let u = c as u32;
    (0x09 <= u && u <= 0x0d) || u == 0x20 || u == 0x85 || u == 0xa0 || u == 0x1680 || (0x2000 <= u
        && u <= 0x200a) || u == 0x2028 || u == 0x2029 || u == 0x202f || u == 0x205f || u == 0x3000
}

/// Splits `s` into its words, as `str::split_whitespace` does.
pub fn split_words(s: &str) -> (r: Vec<String>)
    ensures
        r.deep_view() == words(s@),
{
    let n = s.unicode_len();
    let mut r: Vec<String> = Vec::new();
    let mut start: usize = 0;
    let mut i: usize = 0;
    proof {
        assert(s@.skip(0) =~= s@);
        assert(s@.subrange(0, 0) =~= Seq::<char>::empty());
        assert(r.deep_view() =~= Seq::<Seq<char>>::empty());
        assert(r.deep_view() + words_after(s@, Seq::empty()) =~= words(s@));
    }
    while i < n
        invariant
            n == s@.len(),
            start <= i <= n,
            r.deep_view() + words_after(s@.skip(i as int), s@.subrange(start as int, i as int))
                == words(s@),
        decreases n - i,
    {
        let ghost before = r.deep_view();
        let ghost cur = s@.subrange(start as int, i as int);
        proof {
            assert(s@.skip(i as int).drop_first() =~= s@.skip(i + 1));
            assert(s@.skip(i as int)[0] == s@[i as int]);
        }
        let c = s.get_char(i);
        if is_white(c) {
            if start < i {
                r.push(s.substring_char(start, i).to_owned());
            }
            proof {
                assert(r.deep_view() =~= before + flush(cur));
                assert(s@.subrange(i + 1, i + 1) =~= Seq::<char>::empty());
                assert(before + (flush(cur) + words_after(s@.skip(i + 1), Seq::empty())) =~= (before
                    + flush(cur)) + words_after(s@.skip(i + 1), Seq::empty()));
            }
            start = i + 1;
        } else {
            proof {
                assert(cur.push(s@[i as int]) =~= s@.subrange(start as int, i + 1));
            }
        }
        i = i + 1;
    }
    let ghost before = r.deep_view();
    let ghost cur = s@.subrange(start as int, n as int);
    if start < n {
        r.push(s.substring_char(start, n).to_owned());
    }
    proof {
        assert(s@.skip(n as int) =~= Seq::<char>::empty());
        assert(r.deep_view() =~= before + flush(cur));
    }
    r
}

/// `s` with every occurrence of `from` replaced by `to`, as `str::replace`
/// does for a non-empty pattern.
pub fn replace_all(s: &str, from: &str, to: &str) -> (r: String)
    requires
        from@.len() > 0,
    ensures
        r@ == replaced(s@, from@, to@),
{
    let n = s.unicode_len();
    let m = from.unicode_len();
    let mut out = String::new();
    let mut start: usize = 0;
    let mut i: usize = 0;
    proof {
        assert(s@.skip(0) =~= s@);
        assert(s@.subrange(0, 0) =~= Seq::<char>::empty());
        assert(out@ + s@.subrange(0, 0) + replaced(s@, from@, to@) =~= replaced(s@, from@, to@));
    }
    while i <= n && n - i >= m
        invariant
            n == s@.len(),
            m == from@.len(),
            m > 0,
            start <= i <= n,
            out@ + s@.subrange(start as int, i as int) + replaced(s@.skip(i as int), from@, to@)
                == replaced(s@, from@, to@),
        decreases n - i,
    {
        let ghost rest = s@.skip(i as int);
        proof {
            assert(rest.take(m as int) =~= s@.subrange(i as int, i + m));
        }
        if same_text(s.substring_char(i, i + m), from) {
            let ghost before = out@;
            out.append(s.substring_char(start, i));
            out.append(to);
            proof {
                assert(rest.skip(m as int) =~= s@.skip(i + m));
                assert(s@.subrange(i + m, i + m) =~= Seq::<char>::empty());
                assert(out@ + s@.subrange(i + m, i + m) + replaced(s@.skip(i + m), from@, to@) =~= before
                    + s@.subrange(start as int, i as int) + replaced(rest, from@, to@));
            }
            i = i + m;
            start = i;
        } else {
            proof {
                assert(rest.skip(1) =~= s@.skip(i + 1));
                assert(rest[0] == s@[i as int]);
                assert(s@.subrange(start as int, i + 1) =~= s@.subrange(start as int, i as int) + seq![
                    s@[i as int],
                ]);
                assert(out@ + s@.subrange(start as int, i + 1) + replaced(s@.skip(i + 1), from@, to@)
                    =~= out@ + s@.subrange(start as int, i as int) + replaced(rest, from@, to@));
            }
            i = i + 1;
        }
    }
    let ghost before = out@;
    out.append(s.substring_char(start, n));
    proof {
        assert(replaced(s@.skip(i as int), from@, to@) == s@.skip(i as int));
        assert(s@.subrange(start as int, i as int) + s@.skip(i as int) =~= s@.subrange(
            start as int,
            n as int,
        ));
        assert(out@ =~= before + s@.subrange(start as int, i as int) + s@.skip(i as int));
    }
    out
}

/// Splits the opener template into an argv and fills in the placeholders:
/// the program and its arguments, or `None` when the template holds no word.
pub fn opener_command(template: &str, session_id: &str, cwd: &str) -> (r: Option<(String, Vec<String>)>)
    ensures
        ({
            let argv = opener_argv(template@, session_id@, cwd@);
            match r {
                None => argv.len() == 0,
                Some((program, args)) => argv.len() > 0 && program@ == argv[0] && args.deep_view()
                    == argv.skip(1),
            }
        }),
{
    proof {
        reveal_strlit("{session}");
        reveal_strlit("{cwd}");
    }
    let parts = split_words(template);
    let ghost ws = words(template@);
    let n = parts.len();
    let mut argv: Vec<String> = Vec::new();
    let mut i: usize = 0;
    while i < n
        invariant
            n == parts.len(),
            parts.deep_view() == ws,
            "{session}"@.len() > 0,
            "{cwd}"@.len() > 0,
            i <= n,
            argv.deep_view() =~= ws.take(i as int).map_values(
                |w: Seq<char>| filled(w, session_id@, cwd@),
            ),
        decreases n - i,
    {
        let ghost before = argv.deep_view();
        let with_session = replace_all(parts[i].as_str(), "{session}", session_id);
        let word = replace_all(with_session.as_str(), "{cwd}", cwd);
        argv.push(word);
        proof {
            assert(parts[i as int]@ == ws[i as int]);
            assert(argv.deep_view() =~= before.push(filled(ws[i as int], session_id@, cwd@)));
            assert(ws.take(i + 1) =~= ws.take(i as int).push(ws[i as int]));
        }
        i = i + 1;
    }
    proof {
        assert(ws.take(n as int) =~= ws);
    }
    if argv.len() == 0 {
        return None;
    }
    let ghost all = argv.deep_view();
    let program = argv.remove(0);
    proof {
        assert(argv.deep_view() =~= all.skip(1));
    }
    Some((program, argv))
}

/// Wraps the opener in `systemd-run --user` when running as a systemd
/// service; otherwise it runs as given. `--collect` leaves no failed unit
/// behind, `--quiet` keeps systemd-run's own line out of the journal, and
/// `--` keeps an opener starting with a dash from reading as an option.
pub fn escape_sandbox(program: String, args: Vec<String>, under_systemd: bool) -> (r: (
    String,
    Vec<String>,
))
    ensures
        !under_systemd ==> r.0@ == program@ && r.1.deep_view() == args.deep_view(),
        under_systemd ==> r.0@ == "systemd-run"@ && r.1.deep_view() == seq![
            "--user"@,
            "--collect"@,
            "--quiet"@,
            "--"@,
            program@,
        ] + args.deep_view(),
{
    if !under_systemd {
        return (program, args);
    }
    let ghost pv = program@;
    let ghost av = args.deep_view();
    let mut wrapped: Vec<String> = Vec::new();
    wrapped.push("--user".to_owned());
    wrapped.push("--collect".to_owned());
    wrapped.push("--quiet".to_owned());
    wrapped.push("--".to_owned());
    wrapped.push(program);
    let ghost head = wrapped.deep_view();
    proof {
        assert(head =~= seq!["--user"@, "--collect"@, "--quiet"@, "--"@, pv]);
    }
    let mut rest = args;
    wrapped.append(&mut rest);
    proof {
        assert(wrapped.deep_view() =~= head + av);
    }
    ("systemd-run".to_owned(), wrapped)
}

/// The command that opens a session: the opener's argv, wrapped for
/// systemd when running under it; `None` when the template holds no word.
pub fn opener_invocation(template: &str, session_id: &str, cwd: &str, under_systemd: bool) -> (r:
    Option<(String, Vec<String>)>)
    ensures
        ({
            let argv = opener_argv(template@, session_id@, cwd@);
            match r {
                None => argv.len() == 0,
                Some((program, args)) => argv.len() > 0 && if under_systemd {
                    program@ == "systemd-run"@ && args.deep_view() == seq![
                        "--user"@,
                        "--collect"@,
                        "--quiet"@,
                        "--"@,
                    ] + argv
                } else {
                    program@ == argv[0] && args.deep_view() == argv.skip(1)
                },
            }
        }),
{
    match opener_command(template, session_id, cwd) {
        None => None,
        Some((program, args)) => {
            let ghost argv = opener_argv(template@, session_id@, cwd@);
            let r = escape_sandbox(program, args, under_systemd);
            proof {
                if under_systemd {
                    assert(seq!["--user"@, "--collect"@, "--quiet"@, "--"@, argv[0]] + argv.skip(1)
                        =~= seq!["--user"@, "--collect"@, "--quiet"@, "--"@] + argv);
                }
            }
            Some(r)
        },
    }
}

/// Whether a notification action asks to open the session: its own "open"
/// button, or the notification body itself ("default").
pub fn opens_session(action: &str) -> (r: bool)
    ensures
        r == (action@ == "open"@ || action@ == "default"@),
{
    same_text(action, "open") || same_text(action, "default")
}

/// Substitution never splits or joins arguments: the opener gets exactly as
/// many arguments as the template has words, whatever the session id and the
/// working directory contain.
pub proof fn law_substitution_keeps_arguments_whole(
    template: Seq<char>,
    session_id: Seq<char>,
    cwd: Seq<char>,
)
    ensures
        opener_argv(template, session_id, cwd).len() == words(template).len(),
        forall|i: int|
            0 <= i < words(template).len() ==> #[trigger] opener_argv(template, session_id, cwd)[i]
                == filled(words(template)[i], session_id, cwd),
{
}


/// Whether `pat` occurs in `s` at position `i`.
pub open spec fn occurs_at(s: Seq<char>, pat: Seq<char>, i: int) -> bool {
    0 <= i && i + pat.len() <= s.len() && s.subrange(i, i + pat.len()) == pat
}

/// Every word is non-empty and holds no whitespace; a non-empty text with no
/// whitespace is a single word.
pub proof fn law_words_hold_no_whitespace(s: Seq<char>)
    ensures
        forall|k: int|
            0 <= k < words(s).len() ==> #[trigger] words(s)[k].len() > 0 && forall|j: int|
                0 <= j < words(s)[k].len() ==> !is_white_space(words(s)[k][j]),
        s.len() > 0 && (forall|j: int| 0 <= j < s.len() ==> !is_white_space(#[trigger] s[j]))
            ==> words(s) == seq![s],
{
    lemma_words_after(s, Seq::empty());
}

proof fn lemma_words_after(rest: Seq<char>, cur: Seq<char>)
    requires
        forall|j: int| 0 <= j < cur.len() ==> !is_white_space(#[trigger] cur[j]),
    ensures
        forall|k: int|
            0 <= k < words_after(rest, cur).len() ==> #[trigger] words_after(rest, cur)[k].len() > 0
                && forall|j: int|
                0 <= j < words_after(rest, cur)[k].len() ==> !is_white_space(
                    words_after(rest, cur)[k][j],
                ),
        cur.len() + rest.len() > 0 && (forall|j: int|
            0 <= j < rest.len() ==> !is_white_space(#[trigger] rest[j])) ==> words_after(rest, cur)
            == seq![cur + rest],
    decreases rest.len(),
{
    if rest.len() == 0 {
        assert(cur + rest =~= cur);
    } else if is_white_space(rest[0]) {
        lemma_words_after(rest.drop_first(), Seq::empty());
        let w = words_after(rest.drop_first(), Seq::empty());
        let all = flush(cur) + w;
        assert forall|k: int| 0 <= k < all.len() implies #[trigger] all[k].len() > 0 && forall|j: int|
            0 <= j < all[k].len() ==> !is_white_space(all[k][j]) by {
            if k < flush(cur).len() {
                assert(all[k] == cur);
            } else {
                assert(all[k] == w[k - flush(cur).len()]);
            }
        }
    } else {
        let next = cur.push(rest[0]);
        assert forall|j: int| 0 <= j < next.len() implies !is_white_space(#[trigger] next[j]) by {
            if j < cur.len() {
                assert(next[j] == cur[j]);
            }
        }
        lemma_words_after(rest.drop_first(), next);
        if forall|j: int| 0 <= j < rest.len() ==> !is_white_space(#[trigger] rest[j]) {
            assert forall|j: int| 0 <= j < rest.drop_first().len() implies !is_white_space(
                #[trigger] rest.drop_first()[j],
            ) by {
                assert(rest.drop_first()[j] == rest[j + 1]);
            }
            assert(next + rest.drop_first() =~= cur + rest);
        }
    }
}

/// Replacing leaves a text in which the pattern does not occur unchanged,
/// and turns a leading occurrence into the replacement.
pub proof fn law_replacing(s: Seq<char>, pat: Seq<char>, to: Seq<char>)
    requires
        pat.len() > 0,
    ensures
        (forall|i: int| !#[trigger] occurs_at(s, pat, i)) ==> replaced(s, pat, to) == s,
        replaced(pat + s, pat, to) == to + replaced(s, pat, to),
    decreases s.len(),
{
    assert((pat + s).take(pat.len() as int) =~= pat);
    assert((pat + s).skip(pat.len() as int) =~= s);
    if forall|i: int| !#[trigger] occurs_at(s, pat, i) {
        if s.len() >= pat.len() {
            assert(!occurs_at(s, pat, 0));
            assert(s.subrange(0, pat.len() as int) =~= s.take(pat.len() as int));
            let t = s.skip(1);
            assert forall|i: int| !#[trigger] occurs_at(t, pat, i) by {
                if occurs_at(t, pat, i) {
                    assert(t.subrange(i, i + pat.len()) =~= s.subrange(i + 1, i + 1 + pat.len()));
                    assert(occurs_at(s, pat, i + 1));
                }
            }
            law_replacing(t, pat, to);
            assert(seq![s[0]] + t =~= s);
        }
    }
}

} // verus!
