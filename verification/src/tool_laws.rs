//! What holds of numerals, paths and the order of texts, and of how tools are found
//! and driven.
use vstd::prelude::*;
use crate::agent::{
    adapter_of, candidates, capabilities_doc, caps_doc, caps_of, found_path, kind_caps, kind_of,
    status_doc, tool_docs, tools_doc, unknown_agent, AdapterView, AgentCaps, FoundBin, Happening,
    TurnId,
};
use crate::conductor::AgentId;
use crate::count_laws::tells;
use crate::generic::generic_spec;
use crate::ids::id_text;
use crate::json::{jbool, jopt_str, jstr, jtexts, Doc};
use crate::mock::mock_turn;
use crate::numeral::{dec, digit, digits_value, hex, parsed_u64};
use crate::order::text_le;
use crate::path::{extension_of, file_name_of, is_component, is_rooted, joined, last_dot};
use crate::registry::{known_rows, row_of, AdapterKind, ToolRow};
use crate::scan::{char_from, lemma_char_from, split_at_char};
use crate::text::join;
use crate::text_laws::{
    group_says, law_joining_keeps_every_part, lemma_says_all_each, lemma_says_through, says,
};

verus! {

// ---- Numerals ----------------------------------------------------------------------

proof fn lemma_dec(n: nat)
    ensures
        dec(n).len() > 0,
        forall|i: int| 0 <= i < dec(n).len() ==> '0' <= #[trigger] dec(n)[i] && dec(n)[i] <= '9',
        digits_value(dec(n)) == n,
    decreases n,
{
    reveal_with_fuel(digits_value, 2);
    if n >= 10 {
        lemma_dec(n / 10);
        let s = dec(n);
        assert(s.drop_last() =~= dec(n / 10));
        assert(s.last() == digit(n % 10));
    } else {
        let s = seq![digit(n)];
        assert(s.drop_last() =~= Seq::<char>::empty());
        assert(s.last() == digit(n));
    }
}

/// A numeral is read back as the number that it was written for, so different numbers
/// have different numerals; and it begins with no sign.
pub proof fn law_numerals_are_read_back(n: u64, m: u64)
    ensures
        parsed_u64(dec(n as nat)) == Some(n),
        dec(n as nat) == dec(m as nat) ==> n == m,
{
    lemma_dec(n as nat);
    lemma_dec(m as nat);
    assert('0' <= dec(n as nat)[0]);
}

/// An identifier is shown in thirty-six characters: thirty-two digits, in five groups
/// with a hyphen between them.
pub proof fn law_identifiers_are_shown_in_groups(id: AgentId)
    ensures
        id_text(id).len() == 36,
        id_text(id)[8] == '-' && id_text(id)[13] == '-' && id_text(id)[18] == '-' && id_text(
            id,
        )[23] == '-',
        id_text(id).subrange(0, 8) + id_text(id).subrange(9, 13) + id_text(id).subrange(14, 18)
            + id_text(id).subrange(19, 23) + id_text(id).subrange(24, 36) == hex(id as nat, 32),
{
    reveal_strlit("-");
    lemma_hex_width(id as nat, 32);
    let h = hex(id as nat, 32);
    let t = id_text(id);
    assert(t.subrange(0, 8) =~= h.subrange(0, 8));
    assert(t.subrange(9, 13) =~= h.subrange(8, 12));
    assert(t.subrange(14, 18) =~= h.subrange(12, 16));
    assert(t.subrange(19, 23) =~= h.subrange(16, 20));
    assert(t.subrange(24, 36) =~= h.subrange(20, 32));
    assert(h.subrange(0, 8) + h.subrange(8, 12) + h.subrange(12, 16) + h.subrange(16, 20)
        + h.subrange(20, 32) =~= h);
}

proof fn lemma_hex_width(n: nat, width: nat)
    ensures
        hex(n, width).len() == width,
    decreases width,
{
    if width > 0 {
        lemma_hex_width(n / 16, (width - 1) as nat);
    }
}

// ---- The order of texts --------------------------------------------------------------

/// Texts are ordered: any two stand one way or the other, both ways only where they
/// are the same, and through a third.
pub proof fn law_texts_are_ordered(a: Seq<char>, b: Seq<char>, c: Seq<char>)
    ensures
        text_le(a, b) || text_le(b, a),
        text_le(a, b) && text_le(b, a) ==> a == b,
        text_le(a, b) && text_le(b, c) ==> text_le(a, c),
        text_le(a, a),
        a.len() > 0 && b.len() > 0 && a[0] < b[0] ==> text_le(a, b) && !text_le(b, a),
        text_le(a, a + b),
    decreases a.len() + b.len() + c.len(),
{
    if a.len() > 0 {
        if b.len() > 0 && c.len() > 0 {
            law_texts_are_ordered(a.skip(1), b.skip(1), c.skip(1));
        } else if b.len() > 0 {
            law_texts_are_ordered(a.skip(1), b.skip(1), c);
        } else {
            law_texts_are_ordered(a.skip(1), b, c);
        }
        assert((a + b).skip(1) =~= a.skip(1) + b);
        assert((a + b)[0] == a[0]);
        assert(text_le(a.skip(1), a.skip(1) + b)) by {
            lemma_begins(a.skip(1), b);
        }
        assert(text_le(a.skip(1), a.skip(1))) by {
            lemma_begins(a.skip(1), Seq::empty());
            assert(a.skip(1) + Seq::<char>::empty() =~= a.skip(1));
        }
        if b.len() > 0 && a[0] == b[0] && a.skip(1) == b.skip(1) {
            assert(seq![a[0]] + a.skip(1) =~= a);
            assert(seq![b[0]] + b.skip(1) =~= b);
        }
    } else if b.len() == 0 {
        assert(a =~= b);
    }
}

proof fn lemma_begins(a: Seq<char>, b: Seq<char>)
    ensures
        text_le(a, a + b),
    decreases a.len(),
{
    if a.len() > 0 {
        lemma_begins(a.skip(1), b);
        assert((a + b).skip(1) =~= a.skip(1) + b);
        assert((a + b)[0] == a[0]);
    }
}

// ---- Paths -----------------------------------------------------------------------------

/// A path below another begins with it, ends as it was given, and has one slash
/// between; a path from the root stays as it is.
pub proof fn law_joined_paths_have_one_slash(base: Seq<char>, rel: Seq<char>)
    ensures
        is_rooted(rel) ==> joined(base, rel) == rel,
        !is_rooted(rel) && base.len() > 0 && base.last() != '/' ==> joined(base, rel) == base
            + seq!['/'] + rel,
        !is_rooted(rel) && base.len() > 0 && base.last() == '/' ==> joined(base, rel) == base + rel,
        joined(Seq::empty(), rel) == rel,
{
    reveal_strlit("/");
    assert("/"@ =~= seq!['/']);
    assert(Seq::<char>::empty() + rel =~= rel);
}

/// Whether a text is a plain name: one part of a path, and no step to where it is or
/// out of it.
pub open spec fn plain_name(name: Seq<char>) -> bool {
    name.len() > 0 && !name.contains('/') && name != "."@ && name != ".."@
}

proof fn lemma_last_part(base: Seq<char>, name: Seq<char>)
    requires
        !name.contains('/'),
    ensures
        split_at_char(base + seq!['/'] + name, '/').len() > 0,
        split_at_char(base + seq!['/'] + name, '/').last() == name,
    decreases base.len(),
{
    let s = base + seq!['/'] + name;
    assert(s[base.len() as int] == '/');
    lemma_char_from(s, '/', 0);
    let k = char_from(s, '/', 0)->0;
    let rest = s.skip(k + 1);
    if k < base.len() {
        assert(rest =~= base.skip(k + 1) + seq!['/'] + name);
        lemma_last_part(base.skip(k + 1), name);
    } else {
        assert(k == base.len());
        assert(rest =~= name);
        lemma_char_from(name, '/', 0);
        if char_from(name, '/', 0) is Some {
            assert(name.contains(name[char_from(name, '/', 0)->0]));
        }
        assert(split_at_char(name, '/') == seq![name]);
        assert(seq![name].last() == name);
    }
    assert(split_at_char(s, '/') == seq![s.take(k)] + split_at_char(rest, '/'));
    assert((seq![s.take(k)] + split_at_char(rest, '/')).last() == split_at_char(rest, '/').last());
}

/// The name of what lies in a directory is the name that it was put there under.
pub proof fn law_names_are_the_last_part(base: Seq<char>, name: Seq<char>)
    requires
        plain_name(name),
    ensures
        file_name_of(joined(base, name)) == Some(name),
        file_name_of(name) == Some(name),
{
    reveal_strlit("/");
    assert("/"@ =~= seq!['/']);
    if is_rooted(name) {
        assert(name.contains(name[0]));
    }
    lemma_char_from(name, '/', 0);
    if char_from(name, '/', 0) is Some {
        assert(name.contains(name[char_from(name, '/', 0)->0]));
    }
    assert(split_at_char(name, '/') == seq![name]);
    assert(seq![name].last() == name);
    if base.len() > 0 {
        if base.last() == '/' {
            let b = base.drop_last();
            assert(b + seq!['/'] =~= base);
            lemma_last_part(b, name);
        } else {
            lemma_last_part(base, name);
        }
    } else {
        assert(base + name =~= name);
    }
}

/// The extension is what stands behind the last dot of a name, and a name that begins
/// with its only dot has none.
pub proof fn law_extensions_follow_the_last_dot(base: Seq<char>, stem: Seq<char>, ext: Seq<char>)
    requires
        plain_name(stem + seq!['.'] + ext),
        !ext.contains('.'),
    ensures
        stem.len() > 0 ==> extension_of(joined(base, stem + seq!['.'] + ext)) == Some(ext),
        stem.len() == 0 ==> extension_of(joined(base, stem + seq!['.'] + ext)) is None,
{
    let name = stem + seq!['.'] + ext;
    law_names_are_the_last_part(base, name);
    lemma_last_dot(stem, ext);
    assert(name.skip(stem.len() as int + 1) =~= ext);
}

proof fn lemma_last_dot(stem: Seq<char>, ext: Seq<char>)
    requires
        !ext.contains('.'),
    ensures
        last_dot(stem + seq!['.'] + ext) == Some(stem.len() as int),
    decreases ext.len(),
{
    let s = stem + seq!['.'] + ext;
    if ext.len() > 0 {
        let e = ext.drop_last();
        assert(s.last() == ext.last());
        assert(ext.contains(ext.last()));
        assert(s.drop_last() =~= stem + seq!['.'] + e);
        if e.contains('.') {
            let k = choose|k: int| 0 <= k < e.len() && e[k] == '.';
            assert(ext[k] == '.');
        }
        lemma_last_dot(stem, e);
    }
}

// ---- Tools -------------------------------------------------------------------------------

/// A tool is driven by the adapter of its kind, and has the abilities of that kind:
/// one takes messages in mid-turn, two can be held to a schema, and all but the plain
/// ones go on with their sessions.
pub proof fn law_tools_are_driven_by_their_kind(row: ToolRow, key: Seq<char>)
    ensures
        kind_of(adapter_of(row)) == row.kind,
        row.kind == AdapterKind::Generic ==> adapter_of(row) == AdapterView::Generic(
            generic_spec(row),
        ),
        generic_spec(row).bin == row.bin && generic_spec(row).run_args == row.run_args
            && generic_spec(row).model_flag == row.model_flag && generic_spec(row).prompt_flag
            == row.prompt_flag,
        kind_caps(row.kind).midturn_injection <==> row.kind == AdapterKind::Claude,
        kind_caps(row.kind).structured_output <==> row.kind == AdapterKind::Claude || row.kind
            == AdapterKind::Codex,
        kind_caps(row.kind).resumable <==> row.kind != AdapterKind::Generic,
        row_of(key) matches Some(r) ==> caps_of(key) == Some(kind_caps(r.kind)),
        row_of(key) is None ==> caps_of(key) is None,
{
}

/// Every known tool that has efforts says so, and one that has none does not; plain
/// tools are called by their key.
pub proof fn law_the_table_of_tools_is_consistent(i: int)
    requires
        0 <= i < known_rows().len(),
    ensures
        known_rows()[i].supports_effort <==> known_rows()[i].efforts.len() > 0,
        known_rows()[i].kind == AdapterKind::Generic ==> known_rows()[i].bin == known_rows()[i].key,
        known_rows()[i].supports_headless && known_rows()[i].supports_cwd,
        known_rows()[i].kind == AdapterKind::Generic ==> !known_rows()[i].supports_resume,
{
}

/// A command lies where it was found, the first time where it was found more often.
pub proof fn law_commands_lie_where_they_were_found(found: Seq<FoundBin>, bin: Seq<char>, k: int)
    ensures
        0 <= k < found.len() && found[k].bin@ == bin && (forall|j: int|
            0 <= j < k ==> (#[trigger] found[j]).bin@ != bin) ==> found_path(found, bin) == Some(
            found[k].path@,
        ),
        (forall|j: int| 0 <= j < found.len() ==> (#[trigger] found[j]).bin@ != bin) ==> found_path(
            found,
            bin,
        ) is None,
    decreases found.len(),
{
    if found.len() > 0 {
        let t = found.skip(1);
        law_commands_lie_where_they_were_found(t, bin, k - 1);
        assert forall|j: int| 0 <= j < t.len() implies t[j] == found[j + 1] by {}
        if forall|j: int| 0 <= j < k ==> (#[trigger] found[j]).bin@ != bin {
            assert forall|j: int| 0 <= j < k - 1 && j < t.len() implies (#[trigger] t[j]).bin@
                != bin by {
                assert(t[j] == found[j + 1]);
            }
        }
        if forall|j: int| 0 <= j < found.len() ==> (#[trigger] found[j]).bin@ != bin {
            assert(found[0].bin@ != bin);
            assert forall|j: int| 0 <= j < t.len() implies (#[trigger] t[j]).bin@ != bin by {
                assert(t[j] == found[j + 1]);
            }
        }
    }
}

/// A command from the root is looked for where it says, and a plain name in every
/// directory, in their order.
pub proof fn law_names_are_looked_for_in_every_directory(
    bin: Seq<char>,
    dirs: Seq<Seq<char>>,
    i: int,
)
    ensures
        is_rooted(bin) ==> candidates(bin, dirs) == seq![bin],
        plain_name(bin) ==> candidates(bin, dirs).len() == dirs.len() && (0 <= i < dirs.len()
            ==> candidates(bin, dirs)[i] == joined(dirs[i], bin)),
{
    if plain_name(bin) {
        if is_rooted(bin) {
            assert(bin.contains(bin[0]));
        }
        lemma_char_from(bin, '/', 0);
        if char_from(bin, '/', 0) is Some {
            assert(bin.contains(bin[char_from(bin, '/', 0)->0]));
        }
        let pieces = split_at_char(bin, '/');
        assert(pieces == seq![bin]);
        let keep = |p: Seq<char>| is_component(p);
        pieces.lemma_filter_len(keep);
    }
}

/// What nobody knows is named, with all that is known.
pub proof fn law_unknown_tools_are_named(key: Seq<char>, i: int)
    ensures
        says(unknown_agent(key), key),
        0 <= i < known_rows().len() ==> says(unknown_agent(key), known_rows()[i].key),
{
    broadcast use group_says;

    let keys = crate::agent::keys_of(known_rows());
    law_joining_keeps_every_part(keys, " | "@, Seq::empty());
    if 0 <= i < known_rows().len() {
        let all = join(keys, " | "@);
        lemma_says_all_each(all, keys, i);
        lemma_says_through(unknown_agent(key), all, keys[i]);
    }
}

/// A tool is told of as the table has it, and as installed where it was found; all
/// that are known are told of, in order.
pub proof fn law_tools_are_told(
    row: ToolRow,
    path: Option<Seq<char>>,
    caps: AgentCaps,
    found: Seq<FoundBin>,
    i: int,
)
    ensures
        tells(status_doc(row, path), "key"@, jstr(row.key)),
        tells(status_doc(row, path), "bin"@, jstr(row.bin)),
        tells(status_doc(row, path), "path"@, jopt_str(path)),
        tells(status_doc(row, path), "bin_path"@, jopt_str(path)),
        tells(status_doc(row, path), "installed"@, jbool(path is Some)),
        tells(status_doc(row, path), "models"@, jtexts(row.models)),
        tells(status_doc(row, path), "efforts"@, jtexts(row.efforts)),
        tells(status_doc(row, path), "capabilities"@, capabilities_doc(row)),
        tells(caps_doc(caps), "resumable"@, jbool(caps.resumable)),
        tells(caps_doc(caps), "midturn_injection"@, jbool(caps.midturn_injection)),
        tells(caps_doc(caps), "structured_output"@, jbool(caps.structured_output)),
        tells(caps_doc(caps), "mcp"@, jbool(caps.mcp)),
        tells(tools_doc(found), "tools"@, Doc::Arr(tool_docs(found))),
        0 <= i < known_rows().len() ==> tool_docs(found)[i] == status_doc(
            known_rows()[i],
            found_path(found, known_rows()[i].bin),
        ),
{
    let o = status_doc(row, path)->Obj_0;
    assert(o[0] == ("key"@, jstr(row.key)));
    assert(o[4] == ("bin"@, jstr(row.bin)));
    assert(o[5] == ("path"@, jopt_str(path)));
    assert(o[6] == ("bin_path"@, jopt_str(path)));
    assert(o[7] == ("installed"@, jbool(path is Some)));
    assert(o[9] == ("models"@, jtexts(row.models)));
    assert(o[11] == ("efforts"@, jtexts(row.efforts)));
    assert(o[13] == ("capabilities"@, capabilities_doc(row)));
    let q = caps_doc(caps)->Obj_0;
    assert(q[0] == ("resumable"@, jbool(caps.resumable)));
    assert(q[2] == ("midturn_injection"@, jbool(caps.midturn_injection)));
    assert(q[4] == ("structured_output"@, jbool(caps.structured_output)));
    assert(q[6] == ("mcp"@, jbool(caps.mcp)));
    let u = tools_doc(found)->Obj_0;
    assert(u[2] == ("tools"@, Doc::Arr(tool_docs(found))));
}

/// A mock's turn is a turn: it begins, gives its reply as a whole, and is complete.
pub proof fn law_mock_turns_are_turns(agent: AgentId, turn: TurnId, reply: Seq<char>)
    ensures
        ({
            let t = mock_turn(agent, turn, reply);
            &&& t.len() >= 3
            &&& t[0] == Happening::TurnStarted { agent, turn }
            &&& t[t.len() - 2] == Happening::MessageFinal { agent, turn, text: reply }
            &&& t.last() is TurnComplete
            &&& t.last()->TurnComplete_agent == agent
        }),
{
}

} // verus!
