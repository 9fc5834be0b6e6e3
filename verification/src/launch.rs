//! Opening the terminal workspace in a window of its own.
use vstd::prelude::*;
use crate::scan::{trim, trimmed};
use crate::text::{chars_of, flat, lemma_flat_push, texts};

verus! {

/// How a character stands inside single quotes of a shell.
pub open spec fn shell_escaped(c: char) -> Seq<char> {
    if c == '\'' {
        seq!['\'', '\\', '\'', '\'']
    } else {
        seq![c]
    }
}

/// A text in single quotes for a shell.
pub open spec fn shell_quoted(s: Seq<char>) -> Seq<char> {
    seq!['\''] + flat(Seq::new(s.len(), |i: int| shell_escaped(s[i]))) + seq!['\'']
}

/// A text in single quotes for a shell.
pub fn sh_quote(s: &str) -> (r: String)
    ensures
        r@ == shell_quoted(s@),
{
    let ghost one = |i: int| shell_escaped(s@[i]);
    let sc = chars_of(s);
    let mut out = String::new();
    out.push('\'');
    let mut i: usize = 0;
    proof {
        assert(flat(Seq::new(0, one)) =~= Seq::empty());
        assert(out@ =~= seq!['\''] + flat(Seq::new(0, one)));
    }
    while i < sc.len()
        invariant
            i <= sc.len(),
            sc@ == s@,
            one == (|i: int| shell_escaped(s@[i])),
            out@ == seq!['\''] + flat(Seq::new(i as nat, one)),
        decreases sc.len() - i,
    {
        let c = sc[i];
        let ghost was = out@;
        if c == '\'' {
            out.push('\'');
            out.push('\\');
            out.push('\'');
            out.push('\'');
        } else {
            out.push(c);
        }
        proof {
            lemma_flat_push(Seq::new(i as nat, one), one(i as int));
            assert(Seq::new((i + 1) as nat, one) =~= Seq::new(i as nat, one).push(one(i as int)));
            assert(out@ =~= was + one(i as int));
            assert(was + one(i as int) =~= seq!['\''] + (flat(Seq::new(i as nat, one)) + one(
                i as int,
            )));
        }
        i = i + 1;
    }
    out.push('\'');
    proof {
        assert(Seq::new(i as nat, one) =~= Seq::new(s@.len(), |i: int| shell_escaped(s@[i])));
        assert(out@ =~= shell_quoted(s@));
    }
    out
}

// ---- What a shell reads ----------------------------------------------------

/// What a shell makes of a text made of single-quoted pieces and characters
/// behind a backslash: the one word that they spell. Nothing where the text is
/// not made so.
pub open spec fn shell_word(t: Seq<char>, inside: bool) -> Option<Seq<char>>
    decreases t.len(),
{
    if t.len() == 0 {
        if inside {
            None
        } else {
            Some(Seq::empty())
        }
    } else if t[0] == '\'' {
        shell_word(t.skip(1), !inside)
    } else if inside {
        match shell_word(t.skip(1), inside) {
            Some(rest) => Some(seq![t[0]] + rest),
            None => None,
        }
    } else if t[0] == '\\' && t.len() > 1 {
        match shell_word(t.skip(2), inside) {
            Some(rest) => Some(seq![t[1]] + rest),
            None => None,
        }
    } else {
        None
    }
}

/// A shell reads a quoted text as that very text, whatever it holds.
pub proof fn law_quoting_is_undone_by_the_shell(s: Seq<char>)
    ensures
        shell_word(shell_quoted(s), false) == Some(s),
{
    let pieces = flat(Seq::new(s.len(), |i: int| shell_escaped(s[i])));
    assert(shell_quoted(s).skip(1) =~= pieces + seq!['\'']);
    lemma_inside(s, 0);
    assert(s.skip(0) =~= s);
    assert(Seq::new(s.skip(0).len(), |i: int| shell_escaped(s.skip(0)[i])) =~= Seq::new(
        s.len(),
        |i: int| shell_escaped(s[i]),
    ));
}

proof fn lemma_flat_first(parts: Seq<Seq<char>>)
    requires
        parts.len() > 0,
    ensures
        flat(parts) == parts[0] + flat(parts.skip(1)),
    decreases parts.len(),
{
    if parts.len() == 1 {
        assert(parts.drop_last() =~= Seq::empty());
        assert(parts.skip(1) =~= Seq::empty());
        assert(flat(parts) =~= parts[0] + flat(parts.skip(1)));
    } else {
        lemma_flat_first(parts.drop_last());
        assert(parts.drop_last().skip(1) =~= parts.skip(1).drop_last());
        assert(parts.skip(1).last() == parts.last());
        assert(flat(parts) =~= parts[0] + flat(parts.skip(1)));
    }
}

proof fn lemma_inside(s: Seq<char>, n: int)
    requires
        0 <= n <= s.len(),
    ensures
        shell_word(
            flat(Seq::new(s.skip(n).len(), |i: int| shell_escaped(s.skip(n)[i]))) + seq!['\''],
            true,
        ) == Some(s.skip(n)),
    decreases s.len() - n,
{
    let rest = s.skip(n);
    let parts = Seq::new(rest.len(), |i: int| shell_escaped(rest[i]));
    let t = flat(parts) + seq!['\''];
    if n == s.len() {
        assert(parts =~= Seq::empty());
        assert(t =~= seq!['\'']);
        assert(t.skip(1) =~= Seq::empty());
        assert(shell_word(t.skip(1), false) == Some(Seq::<char>::empty()));
        assert(rest =~= Seq::empty());
    } else {
        let next = s.skip(n + 1);
        let others = Seq::new(next.len(), |i: int| shell_escaped(next[i]));
        let u = flat(others) + seq!['\''];
        lemma_inside(s, n + 1);
        lemma_flat_first(parts);
        assert(parts.skip(1) =~= others);
        assert(t =~= parts[0] + u);
        assert(rest =~= seq![rest[0]] + next);
        if rest[0] == '\'' {
            assert(t[0] == '\'');
            let t1 = t.skip(1);
            assert(t1[0] == '\\' && t1[1] == '\'');
            let t2 = t1.skip(2);
            assert(t2[0] == '\'');
            assert(t2.skip(1) =~= u);
            assert(shell_word(t2, false) == shell_word(u, true));
            assert(shell_word(t1, false) == Some(seq!['\''] + next));
        } else {
            assert(t[0] == rest[0]);
            assert(t.skip(1) =~= u);
        }
    }
}

// ---- The script ------------------------------------------------------------

/// What the script says of the tools to connect.
pub open spec fn connect_flags(connect: Seq<Seq<char>>) -> Seq<char> {
    flat(Seq::new(connect.len(), |i: int| " --connect "@ + shell_quoted(connect[i])))
}

/// What the script says of the task.
pub open spec fn prefill_flag(task: Option<Seq<char>>) -> Seq<char> {
    match task {
        Some(t) => if trim(t).len() == 0 {
            Seq::empty()
        } else {
            " --prefill "@ + shell_quoted(trim(t))
        },
        None => Seq::empty(),
    }
}

/// The script that opens the terminal workspace: it goes to the directory and
/// starts the program with the tools to connect and the task, if it says
/// anything.
pub fn build_open_script(tui: &str, cwd: &str, connect: &Vec<String>, task: Option<&str>) -> (r:
    String)
    ensures
        r@ == "#!/bin/bash\ncd "@ + shell_quoted(cwd@) + " || exit 1\nexec "@ + shell_quoted(tui@)
            + connect_flags(texts(connect@)) + prefill_flag(crate::text::opt_str(task)) + "\n"@,
{
    let mut out = "#!/bin/bash\ncd ".to_owned();
    out.append(sh_quote(cwd).as_str());
    out.append(" || exit 1\nexec ");
    out.append(sh_quote(tui).as_str());
    let ghost one = |i: int| " --connect "@ + shell_quoted(texts(connect@)[i]);
    let mut flags = String::new();
    let mut i: usize = 0;
    proof {
        assert(flat(Seq::new(0, one)) =~= Seq::empty());
        assert(flags@ =~= Seq::empty());
    }
    while i < connect.len()
        invariant
            i <= connect.len(),
            one == (|i: int| " --connect "@ + shell_quoted(texts(connect@)[i])),
            flags@ == flat(Seq::new(i as nat, one)),
        decreases connect.len() - i,
    {
        flags.append(" --connect ");
        flags.append(sh_quote(connect[i].as_str()).as_str());
        proof {
            lemma_flat_push(Seq::new(i as nat, one), one(i as int));
            assert(Seq::new((i + 1) as nat, one) =~= Seq::new(i as nat, one).push(one(i as int)));
            assert(flags@ =~= flat(Seq::new(i as nat, one)) + one(i as int));
        }
        i = i + 1;
    }
    proof {
        assert(flags@ == connect_flags(texts(connect@)));
    }
    out.append(flags.as_str());
    let mut prefill = String::new();
    if let Some(t) = task {
        let t = trimmed(t);
        if !t.as_str().is_empty() {
            prefill.append(" --prefill ");
            prefill.append(sh_quote(t.as_str()).as_str());
        }
    }
    proof {
        assert(prefill@ =~= prefill_flag(crate::text::opt_str(task)));
    }
    out.append(prefill.as_str());
    out.append("\n");
    out
}

} // verus!
