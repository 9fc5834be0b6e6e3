//! Keeping the context that prompts carry within a budget of characters.
use vstd::prelude::*;
use crate::numeral::{dec, decimal_size};
use crate::scan::{blank, is_blank, lines, lines_of, starts, starts_with, trim, trimmed};
use crate::text::{
    char_count, chars_of, flat, join, join_texts, lemma_flat_push, lemma_texts_push, same,
    text_between, texts,
};

verus! {

/// Default prompt context budget for stateless adapters.
pub const DEFAULT_CONTEXT_BUDGET_CHARS: usize = 24_000;

/// About how many tokens a number of characters makes: one for every four
/// begun.
pub open spec fn tokens_of(chars: nat) -> nat {
    (chars + 3) / 4
}

/// About how many tokens a number of characters makes.
pub fn estimated_tokens(chars: usize) -> (r: usize)
    ensures
        r == tokens_of(chars as nat),
{
    if chars % 4 == 0 {
        chars / 4
    } else {
        chars / 4 + 1
    }
}

/// About how many tokens an optional number of characters makes.
pub open spec fn opt_tokens(chars: Option<usize>) -> Option<usize> {
    match chars {
        Some(c) => Some(tokens_of(c as nat) as usize),
        None => None,
    }
}

pub fn opt_estimated_tokens(chars: Option<usize>) -> (r: Option<usize>)
    ensures
        r == opt_tokens(chars),
{
    match chars {
        Some(c) => Some(estimated_tokens(c)),
        None => None,
    }
}

/// What stands in place of a turn's output that holds nothing.
pub open spec fn output_or_placeholder(text: Seq<char>) -> Seq<char> {
    if is_blank(text) {
        "(no output this turn)"@
    } else {
        text
    }
}

pub fn no_output_placeholder(text: String) -> (r: String)
    ensures
        r@ == output_or_placeholder(text@),
{
    if blank(text.as_str()) {
        "(no output this turn)".to_owned()
    } else {
        text
    }
}

// ---- Keeping the end -------------------------------------------------------

/// The last `n` characters.
pub open spec fn tail_of(s: Seq<char>, n: nat) -> Seq<char> {
    s.skip(s.len() - n)
}

/// The line that says that only the last `n` characters follow.
pub open spec fn tail_marker(n: nat) -> Seq<char> {
    "(earlier context omitted; showing last "@ + dec(n) + " chars)\n"@
}

/// Whether a trimmed text goes in whole: there is no budget, or the budget is
/// switched off, or the text is within it.
pub open spec fn goes_whole(t: Seq<char>, max: Option<usize>) -> bool {
    match max {
        None => true,
        Some(m) => m == 0 || t.len() <= m,
    }
}

/// A text within a budget: its end, behind a line that says so, where all of it
/// is too much.
pub open spec fn bounded(text: Seq<char>, max: Option<usize>) -> Seq<char> {
    let t = trim(text);
    if goes_whole(t, max) {
        t
    } else {
        tail_marker(max->0 as nat) + tail_of(t, max->0 as nat)
    }
}

fn last_chars(s: &str, n: usize) -> (r: String)
    requires
        n <= s@.len(),
    ensures
        r@ == tail_of(s@, n as nat),
{
    let c = chars_of(s);
    proof {
        assert(s@.skip(s@.len() - n) =~= s@.subrange(s@.len() - n, s@.len() as int));
    }
    text_between(&c, c.len() - n, c.len())
}

/// Keeps the most recent context and says that older material was left out.
pub fn bounded_context(text: &str, max_chars: Option<usize>) -> (r: String)
    ensures
        r@ == bounded(text@, max_chars),
{
    let t = trimmed(text);
    match max_chars {
        None => t,
        Some(m) => {
            if m == 0 || char_count(t.as_str()) <= m {
                t
            } else {
                let mut out = "(earlier context omitted; showing last ".to_owned();
                out.append(decimal_size(m).as_str());
                out.append(" chars)\n");
                out.append(last_chars(t.as_str(), m).as_str());
                out
            }
        },
    }
}

/// The share of a budget that one of several sections gets.
pub open spec fn shared_budget(max: Option<usize>, sections: nat) -> Option<usize> {
    match max {
        Some(m) => if m > 0 && sections > 1 {
            let share = m as nat / sections;
            Some(
                if share == 0 {
                    1
                } else {
                    share as usize
                },
            )
        } else {
            max
        },
        None => None,
    }
}

pub fn split_context_budget(max_chars: Option<usize>, sections: usize) -> (r: Option<usize>)
    ensures
        r == shared_budget(max_chars, sections as nat),
{
    match max_chars {
        Some(m) => if m > 0 && sections > 1 {
            let share: usize = m / sections;
            Some(
                if share == 0 {
                    1
                } else {
                    share
                },
            )
        } else {
            max_chars
        },
        None => None,
    }
}

// ---- Sections of a handoff -------------------------------------------------

/// The first line of a section.
pub open spec fn heading_of(section: Seq<char>) -> Seq<char> {
    let l = lines_of(section);
    if l.len() == 0 {
        Seq::empty()
    } else {
        l[0]
    }
}

/// The lines of a section behind its first.
pub open spec fn body_of(section: Seq<char>) -> Seq<char> {
    let l = lines_of(section);
    if l.len() == 0 {
        Seq::empty()
    } else {
        join(l.skip(1), "\n"@)
    }
}

fn heading_and_body(section: &str) -> (r: (String, String))
    ensures
        r.0@ == heading_of(section@),
        r.1@ == body_of(section@),
{
    let all = lines(section);
    let ghost l = lines_of(section@);
    proof {
        assert(all@.len() == l.len());
    }
    if all.len() == 0 {
        return (String::new(), String::new());
    }
    let mut rest: Vec<String> = Vec::new();
    let mut i: usize = 1;
    while i < all.len()
        invariant
            1 <= i <= all.len(),
            texts(all@) == l,
            texts(rest@) == l.subrange(1, i as int),
        decreases all.len() - i,
    {
        proof {
            lemma_texts_push(rest@, all@[i as int]);
            assert(l[i as int] == all@[i as int]@);
            assert(l.subrange(1, i + 1) =~= l.subrange(1, i as int).push(l[i as int]));
        }
        rest.push(all[i].clone());
        i = i + 1;
    }
    proof {
        assert(l.subrange(1, i as int) =~= l.skip(1));
        assert(l[0] == all@[0]@);
    }
    (all[0].clone(), join_texts(&rest, "\n"))
}

/// A section within a budget: its heading always, the end of its body.
pub open spec fn bounded_section(section: Seq<char>, max: Option<usize>) -> Seq<char> {
    if is_blank(body_of(section)) {
        heading_of(section)
    } else {
        heading_of(section) + "\n"@ + bounded(body_of(section), max)
    }
}

pub fn bounded_execution_section(section: &str, max_chars: Option<usize>) -> (r: String)
    ensures
        r@ == bounded_section(section@, max_chars),
{
    let (heading, rest) = heading_and_body(section);
    if blank(rest.as_str()) {
        return heading;
    }
    let mut out = heading;
    out.append("\n");
    out.append(bounded_context(rest.as_str(), max_chars).as_str());
    out
}

/// The sections that hold something, trimmed.
pub open spec fn told_sections(sections: Seq<Seq<char>>) -> Seq<Seq<char>>
    decreases sections.len(),
{
    if sections.len() == 0 {
        Seq::empty()
    } else {
        let before = told_sections(sections.drop_last());
        if is_blank(sections.last()) {
            before
        } else {
            before.push(trim(sections.last()))
        }
    }
}

/// Every section on lines of its own.
pub open spec fn section_lines(sections: Seq<Seq<char>>) -> Seq<char> {
    flat(Seq::new(sections.len(), |i: int| "\n"@ + sections[i] + "\n"@))
}

/// Every section within its budget, on lines of its own.
pub open spec fn bounded_section_lines(sections: Seq<Seq<char>>, max: Option<usize>) -> Seq<char> {
    flat(Seq::new(sections.len(), |i: int| "\n"@ + bounded_section(sections[i], max) + "\n"@))
}

/// The sections of a handoff within a budget. Where they are too much together,
/// each keeps its heading and an equal share of the budget.
pub open spec fn budgeted_sections(sections: Seq<Seq<char>>, budget: Option<usize>) -> Seq<char> {
    let told = told_sections(sections);
    let whole = section_lines(told);
    match budget {
        None => whole,
        Some(m) => if trim(whole).len() <= m {
            whole
        } else {
            bounded_section_lines(told, shared_budget(budget, told.len()))
        },
    }
}

proof fn lemma_told_push(s: Seq<Seq<char>>, x: Seq<char>)
    ensures
        told_sections(s.push(x)) == (if is_blank(x) {
            told_sections(s)
        } else {
            told_sections(s).push(trim(x))
        }),
{
    assert(s.push(x).drop_last() =~= s);
}

fn keep_told(sections: &Vec<String>) -> (r: Vec<String>)
    ensures
        texts(r@) == told_sections(texts(sections@)),
{
    let mut out: Vec<String> = Vec::new();
    let mut i: usize = 0;
    proof {
        assert(texts(out@) =~= told_sections(texts(sections@).take(0)));
    }
    while i < sections.len()
        invariant
            i <= sections.len(),
            texts(out@) == told_sections(texts(sections@).take(i as int)),
        decreases sections.len() - i,
    {
        let t = trimmed(sections[i].as_str());
        proof {
            let done = texts(sections@).take(i as int);
            assert(texts(sections@).take(i + 1) =~= done.push(sections@[i as int]@));
            lemma_told_push(done, sections@[i as int]@);
            lemma_texts_push(out@, t);
        }
        if !t.as_str().is_empty() {
            out.push(t);
        }
        i = i + 1;
    }
    proof {
        assert(texts(sections@).take(i as int) =~= texts(sections@));
    }
    out
}

fn write_sections(told: &Vec<String>) -> (r: String)
    ensures
        r@ == section_lines(texts(told@)),
{
    let mut out = String::new();
    let mut i: usize = 0;
    let ghost t = texts(told@);
    while i < told.len()
        invariant
            i <= told.len(),
            t == texts(told@),
            out@ == flat(Seq::new(i as nat, |k: int| "\n"@ + t[k] + "\n"@)),
        decreases told.len() - i,
    {
        proof {
            let done = Seq::new(i as nat, |k: int| "\n"@ + t[k] + "\n"@);
            let piece = "\n"@ + t[i as int] + "\n"@;
            lemma_flat_push(done, piece);
            assert(Seq::new((i + 1) as nat, |k: int| "\n"@ + t[k] + "\n"@) =~= done.push(piece));
            assert(out@ + piece =~= out@ + "\n"@ + t[i as int] + "\n"@);
        }
        out.append("\n");
        out.append(told[i].as_str());
        out.append("\n");
        i = i + 1;
    }
    out
}

fn write_bounded_sections(told: &Vec<String>, max_chars: Option<usize>) -> (r: String)
    ensures
        r@ == bounded_section_lines(texts(told@), max_chars),
{
    let mut out = String::new();
    let mut i: usize = 0;
    let ghost t = texts(told@);
    while i < told.len()
        invariant
            i <= told.len(),
            t == texts(told@),
            out@ == flat(
                Seq::new(i as nat, |k: int| "\n"@ + bounded_section(t[k], max_chars) + "\n"@),
            ),
        decreases told.len() - i,
    {
        let piece = bounded_execution_section(told[i].as_str(), max_chars);
        proof {
            let f = |k: int| "\n"@ + bounded_section(t[k], max_chars) + "\n"@;
            let done = Seq::new(i as nat, f);
            lemma_flat_push(done, f(i as int));
            assert(Seq::new((i + 1) as nat, f) =~= done.push(f(i as int)));
            assert(out@ + f(i as int) =~= out@ + "\n"@ + piece@ + "\n"@);
        }
        out.append("\n");
        out.append(piece.as_str());
        out.append("\n");
        i = i + 1;
    }
    out
}

/// The sections of a handoff within a budget.
pub fn budgeted_execution_sections(
    sections: &Vec<String>,
    context_budget_chars: Option<usize>,
) -> (r: String)
    ensures
        r@ == budgeted_sections(texts(sections@), context_budget_chars),
{
    let told = keep_told(sections);
    let whole = write_sections(&told);
    match context_budget_chars {
        None => whole,
        Some(m) => {
            if char_count(trimmed(whole.as_str()).as_str()) <= m {
                return whole;
            }
            let share = split_context_budget(Some(m), told.len());
            proof {
                assert(texts(told@).len() == told@.len());
            }
            write_bounded_sections(&told, share)
        },
    }
}

/// Whether a text is a handoff that was already brought within a budget.
pub open spec fn is_packet(context: Seq<char>) -> bool {
    starts(trim(context), "Execution packet\n"@)
}

/// The context of an execution prompt. A packet goes in as it is.
pub open spec fn execution_context(context: Seq<char>, budget: Option<usize>) -> Seq<char> {
    if is_packet(context) {
        trim(context)
    } else {
        bounded(trim(context), budget)
    }
}

pub fn bounded_execution_prompt_context(
    context: &str,
    context_budget_chars: Option<usize>,
) -> (r: String)
    ensures
        r@ == execution_context(context@, context_budget_chars),
{
    let t = trimmed(context);
    if starts_with(t.as_str(), "Execution packet\n") {
        return t;
    }
    bounded_context(t.as_str(), context_budget_chars)
}

// ---- Keeping both ends -----------------------------------------------------

/// How many characters of a budget go to the beginning.
pub open spec fn head_share(m: nat) -> nat {
    if m / 2 == 0 {
        1
    } else {
        m / 2
    }
}

/// How many characters of a budget go to the end.
pub open spec fn tail_share(m: nat) -> nat {
    if m <= head_share(m) {
        1
    } else {
        (m - head_share(m)) as nat
    }
}

/// The line that says that only the two ends follow.
pub open spec fn edges_marker(m: nat) -> Seq<char> {
    "(middle context omitted; showing first "@ + dec(head_share(m)) + " and last "@ + dec(
        tail_share(m),
    ) + " chars)\n"@
}

/// A text within a budget: its two ends where all of it is too much.
pub open spec fn bounded_edges(text: Seq<char>, max: Option<usize>) -> Seq<char> {
    let t = trim(text);
    if goes_whole(t, max) {
        t
    } else {
        let m = max->0 as nat;
        edges_marker(m) + t.take(head_share(m) as int) + "\n...\n"@ + tail_of(t, tail_share(m))
    }
}

/// Keeps the beginning and the end of a text.
pub fn bounded_context_edges(text: &str, max_chars: Option<usize>) -> (r: String)
    ensures
        r@ == bounded_edges(text@, max_chars),
{
    let t = trimmed(text);
    match max_chars {
        None => t,
        Some(m) => {
            let c = chars_of(t.as_str());
            if m == 0 || c.len() <= m {
                return t;
            }
            let head: usize = if m / 2 == 0 {
                1
            } else {
                m / 2
            };
            let tail: usize = if m <= head {
                1
            } else {
                m - head
            };
            proof {
                assert(t@.take(head as int) =~= t@.subrange(0, head as int));
            }
            let mut out = "(middle context omitted; showing first ".to_owned();
            out.append(decimal_size(head).as_str());
            out.append(" and last ");
            out.append(decimal_size(tail).as_str());
            out.append(" chars)\n");
            out.append(text_between(&c, 0, head).as_str());
            out.append("\n...\n");
            out.append(last_chars(t.as_str(), tail).as_str());
            out
        },
    }
}

// ---- Project context -------------------------------------------------------

/// Whether a line opens a section of the project context.
pub open spec fn is_heading(line: Seq<char>) -> bool {
    let l = trim(line);
    ||| starts(l, "Project context "@)
    ||| l == "Important manifests:"@
    ||| l == "Git working tree:"@
    ||| l == "File map:"@
    ||| l == "Manifest excerpts:"@
}

pub fn is_project_context_section_heading(line: &str) -> (r: bool)
    ensures
        r == is_heading(line@),
{
    let l = trimmed(line);
    let s = l.as_str();
    starts_with(s, "Project context ") || same(s, "Important manifests:") || same(
        s,
        "Git working tree:",
    ) || same(s, "File map:") || same(s, "Manifest excerpts:")
}

/// The sections that lines make, with `current` already gathered: a heading
/// closes the section before it, unless that one is blank.
pub open spec fn sections_from(rest: Seq<Seq<char>>, current: Seq<char>) -> Seq<Seq<char>>
    decreases rest.len(),
{
    if rest.len() == 0 {
        if is_blank(current) {
            Seq::empty()
        } else {
            seq![trim(current)]
        }
    } else if is_heading(rest[0]) && !is_blank(current) {
        seq![trim(current)] + sections_from(rest.skip(1), rest[0] + "\n"@)
    } else {
        sections_from(rest.skip(1), current + rest[0] + "\n"@)
    }
}

/// The sections of a project context.
pub open spec fn project_sections(text: Seq<char>) -> Seq<Seq<char>> {
    sections_from(lines_of(text), Seq::empty())
}

pub fn split_project_context_sections(text: &str) -> (r: Vec<String>)
    ensures
        texts(r@) == project_sections(text@),
{
    let all = lines(text);
    let ghost l = lines_of(text@);
    let mut sections: Vec<String> = Vec::new();
    let mut current = String::new();
    let mut i: usize = 0;
    proof {
        assert(l.skip(0) =~= l);
        assert(texts(sections@) + project_sections(text@) =~= project_sections(text@));
        assert(current@ =~= Seq::<char>::empty());
    }
    while i < all.len()
        invariant
            i <= all.len(),
            texts(all@) == l,
            texts(sections@) + sections_from(l.skip(i as int), current@) == project_sections(text@),
        decreases all.len() - i,
    {
        let line = all[i].as_str();
        let ghost rest = l.skip(i as int);
        proof {
            assert(rest[0] == line@);
            assert(rest.skip(1) =~= l.skip(i + 1));
        }
        if is_project_context_section_heading(line) && !blank(current.as_str()) {
            let done = trimmed(current.as_str());
            proof {
                lemma_texts_push(sections@, done);
                let tail = sections_from(l.skip(i + 1), line@ + "\n"@);
                assert(texts(sections@) + (seq![done@] + tail) =~= texts(sections@).push(done@)
                    + tail);
            }
            sections.push(done);
            current = line.to_owned();
            current.append("\n");
        } else {
            current.append(line);
            current.append("\n");
        }
        i = i + 1;
    }
    proof {
        assert(l.skip(i as int) =~= Seq::empty());
    }
    if !blank(current.as_str()) {
        let done = trimmed(current.as_str());
        proof {
            lemma_texts_push(sections@, done);
            assert(texts(sections@) + seq![done@] =~= texts(sections@).push(done@));
        }
        sections.push(done);
    } else {
        proof {
            assert(texts(sections@) + Seq::<Seq<char>>::empty() =~= texts(sections@));
        }
    }
    sections
}

/// The part of a section's budget that is left for its body.
pub open spec fn body_budget(heading: Seq<char>, max: Option<usize>) -> Option<usize> {
    match max {
        None => None,
        Some(m) => Some(
            if m <= heading.len() + 1 {
                1
            } else {
                (m - heading.len() - 1) as usize
            },
        ),
    }
}

/// A section of the project context within a budget: its heading and both ends
/// of its body.
pub open spec fn bounded_project_section(section: Seq<char>, max: Option<usize>) -> Seq<char> {
    let heading = heading_of(section);
    let body = body_of(section);
    if is_heading(heading) && !is_blank(body) {
        heading + "\n"@ + bounded_edges(body, body_budget(heading, max))
    } else {
        bounded(section, max)
    }
}

pub fn bounded_project_context_section(section: &str, max_chars: Option<usize>) -> (r: String)
    ensures
        r@ == bounded_project_section(section@, max_chars),
{
    let (heading, rest) = heading_and_body(section);
    if is_project_context_section_heading(heading.as_str()) && !blank(rest.as_str()) {
        let left = match max_chars {
            None => None,
            Some(m) => {
                let h: usize = char_count(heading.as_str());
                Some(
                    if m <= h || m - h <= 1 {
                        1
                    } else {
                        m - h - 1
                    },
                )
            },
        };
        let mut out = heading;
        out.append("\n");
        out.append(bounded_context_edges(rest.as_str(), left).as_str());
        out
    } else {
        bounded_context(section, max_chars)
    }
}

/// The line that says that the sections of the project context were cut.
pub open spec fn capped_marker(sections: nat) -> Seq<char> {
    "(project context capped; preserving "@ + dec(sections) + " sections)\n"@
}

/// The sections of the project context, each within its share.
pub open spec fn capped_sections(sections: Seq<Seq<char>>, share: Option<usize>) -> Seq<char> {
    flat(Seq::new(sections.len(), |i: int| bounded_project_section(sections[i], share) + "\n"@))
}

/// A project context within a budget: every section survives, cut to its
/// share.
pub open spec fn bounded_project(text: Seq<char>, max: Option<usize>) -> Seq<char> {
    let t = trim(text);
    let sections = project_sections(t);
    if goes_whole(t, max) {
        t
    } else if sections.len() <= 1 {
        bounded(t, max)
    } else {
        trim(
            capped_marker(sections.len()) + capped_sections(
                sections,
                shared_budget(max, sections.len()),
            ),
        )
    }
}

pub fn bounded_project_context(text: &str, max_chars: Option<usize>) -> (r: String)
    ensures
        r@ == bounded_project(text@, max_chars),
{
    let t = trimmed(text);
    let m = match max_chars {
        None => return t,
        Some(m) => m,
    };
    if m == 0 || char_count(t.as_str()) <= m {
        return t;
    }
    let sections = split_project_context_sections(t.as_str());
    let ghost s = project_sections(t@);
    proof {
        assert(texts(sections@).len() == sections@.len());
    }
    if sections.len() <= 1 {
        return bounded_context(t.as_str(), Some(m));
    }
    let share = split_context_budget(Some(m), sections.len());
    let mut out = "(project context capped; preserving ".to_owned();
    out.append(decimal_size(sections.len()).as_str());
    out.append(" sections)\n");
    let ghost head = out@;
    let ghost f = |k: int| bounded_project_section(s[k], share) + "\n"@;
    let mut i: usize = 0;
    proof {
        assert(flat(Seq::new(0, f)) =~= Seq::empty());
        assert(head + Seq::<char>::empty() =~= head);
    }
    while i < sections.len()
        invariant
            i <= sections.len(),
            s == texts(sections@),
            f == (|k: int| bounded_project_section(s[k], share) + "\n"@),
            out@ == head + flat(Seq::new(i as nat, f)),
        decreases sections.len() - i,
    {
        let piece = bounded_project_context_section(sections[i].as_str(), share);
        proof {
            let done = Seq::new(i as nat, f);
            lemma_flat_push(done, f(i as int));
            assert(Seq::new((i + 1) as nat, f) =~= done.push(f(i as int)));
            assert(head + (flat(done) + f(i as int)) =~= out@ + piece@ + "\n"@);
        }
        out.append(piece.as_str());
        out.append("\n");
        i = i + 1;
    }
    proof {
        assert(Seq::new(i as nat, f) =~= Seq::new(
            s.len(),
            |k: int| bounded_project_section(s[k], share) + "\n"@,
        ));
    }
    trimmed(out.as_str())
}

/// The project context as a block of a prompt; nothing where there is none.
pub open spec fn context_block(project: Option<Seq<char>>, budget: Option<usize>) -> Seq<char> {
    match project {
        Some(text) => if is_blank(text) {
            Seq::empty()
        } else {
            "\nCached project context:\n"@ + bounded_project(trim(text), budget) + "\n"@
        },
        None => Seq::empty(),
    }
}

pub fn project_context_block(
    project_context: Option<&str>,
    context_budget_chars: Option<usize>,
) -> (r: String)
    ensures
        r@ == context_block(crate::text::opt_str(project_context), context_budget_chars),
{
    match project_context {
        Some(text) => {
            let t = trimmed(text);
            if t.as_str().is_empty() {
                return String::new();
            }
            let mut out = "\nCached project context:\n".to_owned();
            out.append(bounded_project_context(t.as_str(), context_budget_chars).as_str());
            out.append("\n");
            out
        },
        None => String::new(),
    }
}

// ---- What a budget keeps ---------------------------------------------------

/// A text within a budget takes the budget and the line about what was left
/// out, at most, and it ends as the text does: the most recent is kept.
pub proof fn law_budgets_keep_the_end(text: Seq<char>, max: usize)
    requires
        max > 0,
    ensures
        bounded(text, Some(max)).len() <= max + tail_marker(max as nat).len(),
        ({
            let t = trim(text);
            let kept = if t.len() <= max {
                t.len()
            } else {
                max as nat
            };
            &&& kept <= bounded(text, Some(max)).len()
            &&& tail_of(bounded(text, Some(max)), kept) == tail_of(t, kept)
        }),
{
    let t = trim(text);
    if t.len() > max {
        assert(tail_of(bounded(text, Some(max)), max as nat) =~= tail_of(t, max as nat));
    }
}

/// A text that is within its budget, or has none, goes in whole but for the
/// white space around it.
pub proof fn law_budgets_leave_short_texts(text: Seq<char>, max: Option<usize>)
    requires
        goes_whole(trim(text), max),
    ensures
        bounded(text, max) == trim(text),
{
}

/// The shares of a budget do not take more than the budget, where it is enough
/// for a character in each section.
pub proof fn law_shares_stay_within_the_budget(max: usize, sections: nat)
    requires
        sections > 0,
        max >= sections,
    ensures
        shared_budget(Some(max), sections) matches Some(share) && share * sections <= max,
{
    if max > 0 && sections > 1 {
        let m: int = max as int;
        let n: int = sections as int;
        let q: int = m / n;
        vstd::arithmetic::div_mod::lemma_fundamental_div_mod(m, n);
        vstd::arithmetic::div_mod::lemma_mod_bound(m, n);
        let left: int = m % n;
        assert(q * n <= m) by (nonlinear_arith)
            requires
                m == n * q + left,
                0 <= left,
        ;
        if q <= 0 {
            assert(n * q <= 0) by (nonlinear_arith)
                requires
                    n > 0,
                    q <= 0,
            ;
        }
        assert(q <= m) by (nonlinear_arith)
            requires
                q * n <= m,
                n >= 1,
                q >= 1,
        ;
        assert(shared_budget(Some(max), sections) == Some(q as usize));
    } else {
        assert(sections == 1);
        assert(max * sections == max) by (nonlinear_arith)
            requires
                sections == 1,
        ;
    }
}

/// A section keeps its heading whatever its budget.
pub proof fn law_sections_keep_their_headings(section: Seq<char>, max: Option<usize>)
    ensures
        bounded_section(section, max).len() >= heading_of(section).len(),
        bounded_section(section, max).take(heading_of(section).len() as int) == heading_of(section),
{
    assert(bounded_section(section, max).take(heading_of(section).len() as int) =~= heading_of(
        section,
    ));
}

} // verus!
