//! What holds of what agents are told of a project: its files and its local
//! changes.
use vstd::prelude::*;
use crate::changes::{
    behind_bytes, change_lines, clean, handoff_cut, handoff_text, is_generated, is_media,
    is_skipped, is_skipped_line, is_skipped_path, is_status, line_paths, path_part, split_at_text,
    status_branch, status_changes, status_omitted, summary_line_of, summary_parts, without_quotes,
    LocalChangeSummary,
};
use crate::numeral::dec;
use crate::project_context::{
    cache_dir_of, collection_limit, context_head, context_text, doc_or_config, excerpt_block,
    excerpt_of, file_le, hidden, in_order, is_collection, law_sorting_keeps_files, manifest,
    manifests_of, map_line, rank, sorted_files, source_entry, source_file, with_section,
    with_status, CollectedFiles, FileInfo,
};
use crate::scan::{find_from, has, lemma_find_from, occurs_at, split_at_char, starts, trim};
use crate::text::{first_n, flat, is_space, texts};
use crate::text_laws::{
    group_says, law_concatenation_keeps_every_part, law_joining_keeps_every_part,
    lemma_says_all_each, lemma_says_through, says, says_all,
};

verus! {

// ---- Files ---------------------------------------------------------------------

/// What is collected of a project is as many files as asked for, or all; none of
/// the files that are left out matters more than one that is taken; and the files
/// stand in the order of their paths. Whether any was left out is told.
pub proof fn law_the_important_files_are_collected(
    r: CollectedFiles,
    found: Seq<FileInfo>,
    max_files: usize,
    a: FileInfo,
    b: FileInfo,
)
    requires
        is_collection(r, found, max_files),
    ensures
        r.files@.len() == (if found.len() <= max_files {
            found.len()
        } else {
            max_files as nat
        }),
        r.truncated <==> found.len() > max_files,
        !r.truncated ==> r.files@.to_multiset() == found.to_multiset(),
        in_order(r.files@, false),
        r.files@.contains(a) ==> found.contains(a),
        r.files@.contains(a) && found.contains(b) && !r.files@.contains(b) ==> rank(a.rel@) <= rank(
            b.rel@,
        ),
{
    let ranked = sorted_files(found, true);
    let taken = first_n(ranked, max_files as nat);
    law_sorting_keeps_files(found, true);
    law_sorting_keeps_files(taken, false);
    lemma_same_files(ranked, found);
    lemma_same_files(r.files@, taken);
    if r.files@.contains(a) {
        assert(taken.contains(a));
        let i = choose|i: int| 0 <= i < taken.len() && taken[i] == a;
        assert(ranked[i] == a);
        assert(ranked.contains(a));
        if found.contains(b) && !r.files@.contains(b) {
            assert(ranked.contains(b));
            let j = choose|j: int| 0 <= j < ranked.len() && ranked[j] == b;
            if j < taken.len() {
                assert(taken[j] == b);
                assert(taken.contains(b));
            }
            assert(file_le(ranked[i], ranked[j], true));
        }
    }
    if !r.truncated {
        assert(taken == ranked);
    }
}

proof fn lemma_same_files(a: Seq<FileInfo>, b: Seq<FileInfo>)
    requires
        a.to_multiset() == b.to_multiset(),
    ensures
        a.len() == b.len(),
        forall|x: FileInfo| a.contains(x) <==> b.contains(x),
{
    a.to_multiset_ensures();
    b.to_multiset_ensures();
    assert forall|x: FileInfo| a.contains(x) <==> b.contains(x) by {
        assert(a.contains(x) <==> a.to_multiset().count(x) > 0);
        assert(b.contains(x) <==> b.to_multiset().count(x) > 0);
    }
}

/// Of a project's files manifests matter most. Of the others, what the tools keep
/// for themselves matters less than any source or document; the entry points of
/// programs matter more than other sources, these more than documents and
/// settings, and media least of all.
pub proof fn law_manifests_and_sources_matter_most(a: Seq<char>, b: Seq<char>)
    ensures
        manifest(a) && !manifest(b) ==> rank(a) < rank(b),
        !manifest(a) && !manifest(b) && !hidden(a) && hidden(b) && (source_entry(a) || source_file(a)
            || doc_or_config(a) || !is_media(a)) ==> rank(a) < rank(b),
        !manifest(a) && !hidden(a) && source_entry(a) && !manifest(b) && !source_entry(b) ==> rank(a)
            < rank(b),
        !manifest(a) && !hidden(a) && source_file(a) && !manifest(b) && !source_entry(b)
            && !source_file(b) ==> rank(a) < rank(b),
        !manifest(a) && !hidden(a) && doc_or_config(a) && !manifest(b) && !hidden(b) && !source_entry(
            b,
        ) && !source_file(b) && !doc_or_config(b) ==> rank(a) < rank(b),
        is_media(b) && !manifest(b) && !hidden(b) && !source_entry(b) && !source_file(b)
            && !doc_or_config(b) ==> rank(a) <= rank(b),
{
}

/// The manifests that are excerpted are the first sixteen, in order.
pub proof fn law_the_first_manifests_are_excerpted(files: Seq<FileInfo>, i: int)
    ensures
        manifests_of(files).len() <= 16,
        0 <= i < manifests_of(files).len() ==> manifest(manifests_of(files)[i].rel@) && files.contains(
            manifests_of(files)[i],
        ),
        files.filter(|f: FileInfo| manifest(f.rel@)).len() <= 16 ==> manifests_of(files)
            == files.filter(|f: FileInfo| manifest(f.rel@)),
        0 <= i < manifests_of(files).len() ==> manifests_of(files)[i] == files.filter(
            |f: FileInfo| manifest(f.rel@),
        )[i],
{
    let keep = |f: FileInfo| manifest(f.rel@);
    if 0 <= i < manifests_of(files).len() {
        let m = files.filter(keep);
        assert(m[i] == manifests_of(files)[i]);
        lemma_filtered(files, keep, i);
    }
}

proof fn lemma_filtered(files: Seq<FileInfo>, keep: spec_fn(FileInfo) -> bool, i: int)
    requires
        0 <= i < files.filter(keep).len(),
    ensures
        keep(files.filter(keep)[i]),
        files.contains(files.filter(keep)[i]),
    decreases files.len(),
{
    if files.len() == 0 {
        assert(files.filter(keep).len() == 0) by {
            reveal(Seq::filter);
        }
    } else {
        let init = files.drop_last();
        assert(init.push(files.last()) =~= files);
        init.lemma_filter_push(files.last(), keep);
        let m = init.filter(keep);
        if i < m.len() {
            lemma_filtered(init, keep, i);
            assert(files.filter(keep)[i] == m[i]);
            let k = choose|k: int| 0 <= k < init.len() && init[k] == m[i];
            assert(files[k] == m[i]);
        } else {
            assert(files[files.len() - 1] == files.filter(keep)[i]);
        }
    }
}

/// As many files are looked at as give four to choose from for each that is
/// asked for, and no fewer than five hundred and twelve.
pub proof fn law_enough_files_are_looked_at(max_files: usize)
    ensures
        collection_limit(max_files) >= 512,
        max_files * 4 <= usize::MAX ==> collection_limit(max_files) >= max_files * 4,
        max_files <= 128 ==> collection_limit(max_files) == 512,
        128 < max_files && max_files * 4 <= usize::MAX ==> collection_limit(max_files) == max_files
            * 4,
{
}

/// An excerpt is the text without the white space around it where that is short
/// enough, and else its beginning.
pub proof fn law_excerpts_begin_as_the_text(s: Seq<char>, max: nat)
    ensures
        trim(s).len() <= max ==> excerpt_of(s, max) == trim(s),
        trim(s).len() > max ==> excerpt_of(s, max).len() > max && excerpt_of(s, max).take(max as int)
            == trim(s).take(max as int),
{
    if trim(s).len() > max {
        reveal_strlit("\n... (excerpt truncated)");
        assert(excerpt_of(s, max).take(max as int) =~= trim(s).take(max as int));
    }
}

/// The context names the root, every file that was collected, in order, and every
/// manifest with its excerpt; and it says whether files were left out.
pub proof fn law_contexts_name_every_file(
    root: Seq<char>,
    files: Seq<FileInfo>,
    rels: Seq<Seq<char>>,
    bodies: Seq<Option<Seq<char>>>,
    truncated: bool,
    max_files: usize,
    max: nat,
    i: int,
)
    requires
        rels.len() == bodies.len(),
    ensures
        ({
            let t = context_text(root, files, rels, bodies, truncated, max_files, max);
            &&& says(t, root)
            &&& says(t, "Indexed files: "@ + dec(files.len()))
            &&& says_all(t, Seq::new(files.len(), |k: int| map_line(files[k])))
            &&& 0 <= i < files.len() ==> says(t, files[i].rel@)
            &&& 0 <= i < rels.len() ==> says(t, rels[i])
            &&& 0 <= i < rels.len() && bodies[i] is Some ==> says(
                t,
                excerpt_of(bodies[i]->Some_0, max),
            )
            &&& truncated ==> says(t, "Truncated: yes"@)
            &&& !truncated ==> says(t, "Truncated: no"@)
        }),
{
    broadcast use group_says;

    lemma_head_says(root, files.len(), truncated, max_files);
    let head = context_head(root, files.len(), truncated, max_files);
    let lines = Seq::new(files.len(), |k: int| map_line(files[k]));
    law_concatenation_keeps_every_part(lines, Seq::empty());
    let t = context_text(root, files, rels, bodies, truncated, max_files, max);
    assert(says(t, head));
    lemma_says_through(t, head, "Indexed files: "@ + dec(files.len()));
    if truncated {
        lemma_says_through(t, head, "Truncated: yes"@);
    } else {
        lemma_says_through(t, head, "Truncated: no"@);
    }
    if 0 <= i < files.len() {
        lemma_says_all_each(flat(lines), lines, i);
        assert(says(map_line(files[i]), files[i].rel@));
        lemma_says_through(flat(lines), lines[i], files[i].rel@);
    }
    if 0 <= i < rels.len() {
        let blocks = Seq::new(rels.len(), |k: int| excerpt_block(rels[k], bodies[k], max));
        law_concatenation_keeps_every_part(blocks, Seq::empty());
        lemma_says_all_each(flat(blocks), blocks, i);
        let named = Seq::new(rels.len(), |k: int| "- "@ + rels[k] + "\n"@);
        law_concatenation_keeps_every_part(named, Seq::empty());
        lemma_says_all_each(flat(named), named, i);
        assert(says(named[i], rels[i]));
        lemma_says_through(flat(named), named[i], rels[i]);
        if bodies[i] is Some {
            let e = excerpt_of(bodies[i]->Some_0, max);
            assert(says(blocks[i], e));
            lemma_says_through(flat(blocks), blocks[i], e);
        }
    }
}

proof fn lemma_head_says(root: Seq<char>, files: nat, truncated: bool, max_files: usize)
    ensures
        says(context_head(root, files, truncated, max_files), root),
        says(context_head(root, files, truncated, max_files), "Indexed files: "@ + dec(files)),
        truncated ==> says(context_head(root, files, truncated, max_files), "Truncated: yes"@),
        !truncated ==> says(context_head(root, files, truncated, max_files), "Truncated: no"@),
{
    broadcast use group_says;

    let lead = "Project context (cached by Tales)\n"@ + "Root: "@ + root + "\n"@;
    let n = "Indexed files: "@ + dec(files);
    assert(lead + "Indexed files: "@ + dec(files) =~= lead + n);
    reveal_strlit("Truncated: yes (max_files=");
    reveal_strlit("Truncated: yes");
    reveal_strlit("Truncated: no\n");
    reveal_strlit("Truncated: no");
    reveal_strlit(" (max_files=");
    reveal_strlit("\n");
    assert("Truncated: yes (max_files="@ =~= "Truncated: yes"@ + " (max_files="@);
    assert("Truncated: no\n"@ =~= "Truncated: no"@ + "\n"@);
}

/// A section is put before the file map, or behind everything where there is
/// none; the rest of the context stays as it is.
pub proof fn law_sections_are_put_before_the_map(body: Seq<char>, section: Seq<char>)
    ensures
        exists|k: int|
            0 <= k <= body.len() && with_section(body, section) == #[trigger] body.take(k) + section
                + body.skip(k) && (occurs_at(body, "\nFile map:\n"@, k) || k == body.len()),
        with_status(body, None) == body,
{
    lemma_find_from(body, "\nFile map:\n"@, 0);
    match find_from(body, "\nFile map:\n"@, 0) {
        Some(k) => {
            assert(with_section(body, section) == body.take(k) + section + body.skip(k));
        },
        None => {
            let k = body.len() as int;
            assert(body.take(k) + section + body.skip(k) =~= body + section);
        },
    }
}

/// The cache lies where it was asked to, else where caches lie for the user, else
/// in the user's home, else with temporary files: each of these only where none
/// before it is given.
pub proof fn law_caches_lie_where_asked(
    own: Seq<char>,
    a: Option<Seq<char>>,
    b: Option<Seq<char>>,
    c: Option<Seq<char>>,
    d: Option<Seq<char>>,
    temp: Seq<char>,
    other: Seq<char>,
)
    ensures
        cache_dir_of(Some(own), a, b, temp) == cache_dir_of(Some(own), c, d, other),
        cache_dir_of(None, Some(own), b, temp) == cache_dir_of(None, Some(own), d, other),
        cache_dir_of(None, None, Some(own), temp) == cache_dir_of(None, None, Some(own), other),
{
}

// ---- Local changes ---------------------------------------------------------------

/// Whether an entry of a status names the branch.
pub open spec fn names_branch(e: Seq<char>) -> bool {
    starts(e, "## "@)
}

proof fn lemma_entries(entries: Seq<Seq<char>>, media: bool)
    ensures
        status_changes(entries, media).len() + status_omitted(entries, media) + entries.filter(
            |e: Seq<char>| names_branch(e),
        ).len() == entries.len(),
    decreases entries.len(),
{
    let a = |s: Seq<char>| !starts(s, "## "@) && !is_skipped_line(s, media);
    let b = |s: Seq<char>| !starts(s, "## "@) && is_skipped_line(s, media);
    let c = |e: Seq<char>| names_branch(e);
    if entries.len() == 0 {
        assert(entries.filter(a).len() == 0 && entries.filter(b).len() == 0 && entries.filter(
            c,
        ).len() == 0) by {
            reveal(Seq::filter);
        }
    } else {
        let init = entries.drop_last();
        lemma_entries(init, media);
        assert(init.push(entries.last()) =~= entries);
        init.lemma_filter_push(entries.last(), a);
        init.lemma_filter_push(entries.last(), b);
        init.lemma_filter_push(entries.last(), c);
    }
}

/// Every entry of a status is the branch's, or is shown, or is counted as left
/// out. Shown are, in order, the entries with a path that is not generated; where
/// there are more than asked for, the first of them are shown and that is told.
pub proof fn law_changes_are_shown_or_counted(
    entries: Seq<Seq<char>>,
    media: bool,
    max: nat,
    branch: Option<Seq<char>>,
    changes: Seq<Seq<char>>,
    truncated: bool,
    omitted: nat,
)
    requires
        is_status(entries, media, max, branch, changes, truncated, omitted),
    ensures
        !truncated ==> changes.len() + omitted + entries.filter(|e: Seq<char>| names_branch(e)).len()
            == entries.len(),
        !truncated ==> changes == entries.filter(
            |e: Seq<char>| !names_branch(e) && !is_skipped_line(e, media),
        ),
        truncated ==> changes.len() == max && entries.len() > max + omitted,
        changes.len() <= max,
{
    lemma_entries(entries, media);
    let a = |s: Seq<char>| !starts(s, "## "@) && !is_skipped_line(s, media);
    let b = |e: Seq<char>| !names_branch(e) && !is_skipped_line(e, media);
    assert(a =~= b);
}

/// An entry is left out where it names something and everything that it names is
/// generated, a dependency or, where media are left out, media. One path that is
/// none of these is enough for it to be shown.
pub proof fn law_one_path_is_enough(line: Seq<char>, media: bool, i: int)
    ensures
        0 <= i < line_paths(line).len() && !is_skipped_path(line_paths(line)[i], media)
            ==> !is_skipped_line(line, media),
        path_part(line).len() == 0 ==> !is_skipped_line(line, media),
        is_skipped_line(line, false) ==> is_skipped_line(line, true),
{
    if is_skipped_line(line, false) {
        assert forall|k: int| 0 <= k < line_paths(line).len() implies is_skipped_path(
            #[trigger] line_paths(line)[k],
            true,
        ) by {
            assert(is_skipped_path(line_paths(line)[k], false));
        }
    }
}

/// The names of directories and files that hold nothing of the project's own.
pub open spec fn kept_out() -> Seq<Seq<char>> {
    seq![
        ".git"@,
        ".hg"@,
        ".svn"@,
        ".tales"@,
        ".playwright-cli"@,
        "target"@,
        "node_modules"@,
        ".next"@,
        "dist"@,
        "build"@,
        ".cache"@,
        ".turbo"@,
        "coverage"@,
        ".DS_Store"@,
    ]
}

/// A path is left out where one of its parts is such a name, at any depth, or
/// where it lies in a directory of outputs; and nowhere else.
pub proof fn law_dependencies_are_left_out(rel: Seq<char>, i: int, n: int)
    ensures
        0 <= i < split_at_char(rel, '/').len() && 0 <= n < kept_out().len() && split_at_char(
            rel,
            '/',
        )[i] == kept_out()[n] ==> is_skipped(rel),
        (forall|k: int|
            0 <= k < split_at_char(rel, '/').len() ==> !kept_out().contains(
                #[trigger] split_at_char(rel, '/')[k],
            )) && !is_generated(crate::scan::replaced(rel, "\\"@, "/"@)) ==> !is_skipped(rel),
        starts(rel, "output/"@) || starts(rel, "tmp/"@) || starts(rel, "video/out/"@) || has(
            rel,
            "/output/"@,
        ) || has(rel, "/tmp/"@) <==> is_generated(rel),
{
    let s = split_at_char(rel, '/');
    let names = kept_out();
    if (forall|k: int| 0 <= k < s.len() ==> !names.contains(#[trigger] s[k])) && !is_generated(
        crate::scan::replaced(rel, "\\"@, "/"@),
    ) && is_skipped(rel) {
        let k = choose|k: int|
            0 <= k < s.len() && crate::changes::is_skipped_name(#[trigger] s[k]);
        assert(!names.contains(s[k]));
        assert(names[0] == ".git"@ && names[1] == ".hg"@ && names[2] == ".svn"@ && names[3]
            == ".tales"@ && names[4] == ".playwright-cli"@ && names[5] == "target"@ && names[6]
            == "node_modules"@ && names[7] == ".next"@ && names[8] == "dist"@ && names[9]
            == "build"@ && names[10] == ".cache"@ && names[11] == ".turbo"@ && names[12]
            == "coverage"@ && names[13] == ".DS_Store"@);
        assert(false);
    }
}

/// The branch is what a status names last, without the white space around it.
pub proof fn law_branches_are_named(entries: Seq<Seq<char>>, k: int)
    requires
        0 <= k < entries.len(),
        names_branch(entries[k]),
        forall|j: int| k < j < entries.len() ==> !names_branch(#[trigger] entries[j]),
    ensures
        status_branch(entries) == Some(trim(entries[k].skip(3))),
    decreases entries.len(),
{
    if k < entries.len() - 1 {
        let init = entries.drop_last();
        assert(!names_branch(entries[entries.len() - 1]));
        assert(init[k] == entries[k]);
        assert forall|j: int| k < j < init.len() implies !names_branch(#[trigger] init[j]) by {
            assert(init[j] == entries[j]);
        }
        law_branches_are_named(init, k);
    }
}

/// An executor is told the branch, every change that is shown, in order, and how
/// many were left out, where any were. A tree without changes is called clean
/// exactly where nothing is shown, left out or cut.
pub proof fn law_executors_are_told_the_changes(c: LocalChangeSummary)
    ensures
        c.branch matches Some(b) ==> says(handoff_text(c), b@),
        says_all(
            handoff_text(c),
            Seq::new(c.changes@.len(), |i: int| "  - "@ + c.changes@[i]@ + "\n"@),
        ),
        c.changes@.len() == 0 ==> says(handoff_text(c), "changes: clean"@),
        c.omitted > 0 ==> says(handoff_text(c), dec(c.omitted as nat)),
        c.truncated && c.changes@.len() > 0 ==> says(handoff_text(c), "status truncated after "@),
        clean(c) <==> c.changes@.len() == 0 && c.omitted == 0 && !c.truncated,
        says_all(summary_line_of(c), summary_parts(c)),
{
    broadcast use group_says;

    let names = texts(c.changes@);
    let lines = Seq::new(names.len(), |i: int| "  - "@ + names[i] + "\n"@);
    law_concatenation_keeps_every_part(lines, Seq::empty());
    assert(lines =~= Seq::new(c.changes@.len(), |i: int| "  - "@ + c.changes@[i]@ + "\n"@));
    let cut = handoff_cut(c.changes@.len());
    let told = change_lines(names, c.truncated, cut);
    if c.changes@.len() == 0 {
        reveal(says_all);
        assert(crate::text_laws::says_each_at(told, Seq::empty(), lines));
        reveal_strlit("- changes: clean\n");
        reveal_strlit("changes: clean");
        reveal_strlit("- ");
        reveal_strlit("\n");
        assert("- changes: clean\n"@ =~= "- "@ + "changes: clean"@ + "\n"@);
        assert(says("- "@ + "changes: clean"@ + "\n"@, "changes: clean"@));
    } else {
        assert(says_all(told, lines));
        if c.truncated {
            reveal_strlit("  - ... (status truncated after ");
            reveal_strlit("status truncated after ");
            reveal_strlit("  - ... (");
            assert("  - ... (status truncated after "@ =~= "  - ... ("@ + "status truncated after "@);
            assert(says("  - ... ("@ + "status truncated after "@, "status truncated after "@));
            assert(says(cut, "status truncated after "@));
        }
    }
    law_joining_keeps_every_part(summary_parts(c), "; "@, Seq::empty());
}

/// Whether a text is a plain path: nothing around it is space or a quotation mark, and
/// it has no arrow.
pub open spec fn plain_path(path: Seq<char>) -> bool {
    &&& path.len() > 0
    &&& !is_space(path[0]) && !is_space(path.last())
    &&& path[0] != '"' && path.last() != '"'
    &&& !path.contains('>')
}

proof fn lemma_nothing_to_trim(s: Seq<char>)
    requires
        s.len() > 0,
        !is_space(s[0]),
        !is_space(s.last()),
    ensures
        trim(s) == s,
{
    reveal_with_fuel(crate::scan::lead_spaces, 1);
    assert(crate::scan::trim_start(s) =~= s);
    assert(crate::scan::trim_end(s) =~= s);
}

proof fn lemma_behind_the_letters(line: Seq<char>, rest: Seq<char>, a: char, b: char)
    requires
        line == seq![a, b, ' '] + rest,
        (a as u32) < 0x80,
        (b as u32) < 0x80,
    ensures
        behind_bytes(line, 3) == Some(rest),
{
    assert(line.skip(1) =~= seq![b, ' '] + rest);
    assert(line.skip(1).skip(1) =~= seq![' '] + rest);
    assert(line.skip(1).skip(1).skip(1) =~= rest);
    assert(line[0] == a && line.skip(1)[0] == b && line.skip(1).skip(1)[0] == ' ');
    reveal_with_fuel(behind_bytes, 4);
}

proof fn lemma_no_arrow(s: Seq<char>)
    requires
        !s.contains('>'),
    ensures
        split_at_text(s, " -> "@) == seq![s],
{
    reveal_strlit(" -> ");
    lemma_find_from(s, " -> "@, 0);
    if find_from(s, " -> "@, 0) is Some {
        let k = find_from(s, " -> "@, 0)->0;
        assert(s.subrange(k, k + 4)[2] == '>');
        assert(s[k + 2] == '>');
    }
}

/// An entry names the path behind its two letters; one that tells of a new name names
/// the old path and the new one, in this order.
pub proof fn law_entries_name_their_paths(a: char, b: char, old_path: Seq<char>, new_path: Seq<char>)
    requires
        (a as u32) < 0x80,
        (b as u32) < 0x80,
        plain_path(old_path),
        plain_path(new_path),
    ensures
        line_paths(seq![a, b, ' '] + old_path) == seq![old_path],
        line_paths(seq![a, b, ' '] + (old_path + " -> "@ + new_path)) == seq![old_path, new_path],
{
    reveal_strlit(" -> ");
    let arrow = " -> "@;
    let line = seq![a, b, ' '] + old_path;
    lemma_behind_the_letters(line, old_path, a, b);
    lemma_nothing_to_trim(old_path);
    lemma_nothing_to_trim(new_path);
    lemma_no_arrow(old_path);
    lemma_no_arrow(new_path);
    assert(without_quotes(old_path) == old_path);
    assert(without_quotes(new_path) == new_path);
    assert(path_part(line) == old_path);
    assert(line_paths(line) =~= seq![old_path]);
    let rest = old_path + arrow + new_path;
    let long = seq![a, b, ' '] + rest;
    lemma_behind_the_letters(long, rest, a, b);
    assert(rest[0] == old_path[0] && rest.last() == new_path.last());
    lemma_nothing_to_trim(rest);
    let n = old_path.len() as int;
    assert(rest.subrange(n, n + 4) =~= arrow);
    assert(occurs_at(rest, arrow, n));
    lemma_find_from(rest, arrow, 0);
    let k = find_from(rest, arrow, 0)->0;
    if k < n {
        assert(rest.subrange(k, k + 4)[2] == '>');
        assert(rest[k + 2] == '>');
        if k + 2 < n {
            assert(old_path[k + 2] == '>');
        } else {
            assert(rest[k + 2] == arrow[k + 2 - n]);
            assert(arrow[0] == ' ' && arrow[1] == '-');
        }
        assert(false);
    }
    assert(k == n);
    assert(rest.take(n) =~= old_path);
    assert(rest.skip(n + 4) =~= new_path);
    assert(split_at_text(rest, arrow) =~= seq![old_path, new_path]);
    assert(line_paths(long) =~= seq![old_path, new_path]);
}

/// Quotation marks around a path are no part of it.
pub proof fn law_quotes_are_no_part_of_a_path(path: Seq<char>)
    requires
        plain_path(path),
    ensures
        without_quotes(path) == path,
        without_quotes(seq!['"'] + path + seq!['"']) == path,
{
    let q = seq!['"'] + path + seq!['"'];
    let r = path + seq!['"'];
    assert(q.skip(1) =~= r);
    assert(r[0] == path[0]);
    assert(r.drop_last() =~= path);
    assert(without_quotes(r) == without_quotes(path));
}

} // verus!
