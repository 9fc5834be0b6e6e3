//! What holds of the files that are shown to agents and of the tools that agents use.
use vstd::prelude::*;
use crate::agent::{ext_of, shows_image, Happening, TurnId};
use crate::claude::{
    base64_text, begins_turn, block_doc, block_is, claude_events, encoded_block, message_doc,
    shown_blocks, string_items, tool_calls,
};
use crate::codex::{shortened, told_first, told_under, tool_summary};
use crate::conductor::AgentId;
use crate::count_laws::tells;
use crate::json::{doc_items, doc_str, jstr, member, member2, Doc};
use crate::scan::trim;
use crate::text_laws::{group_says, says};
use crate::turns::turn_after;

verus! {

// ---- Files ---------------------------------------------------------------------------

/// A message is the text, and behind it all that is shown, in order.
pub proof fn law_messages_show_the_text_first(message: Seq<char>, blocks: Seq<Doc>, i: int)
    ensures
        ({
            let content = member2(message_doc(message, blocks), "message"@, "content"@);
            &&& content matches Some(Doc::Arr(c)) && c.len() == 1 + blocks.len() && tells(
                c[0],
                "text"@,
                jstr(message),
            ) && (0 <= i < blocks.len() ==> c[i + 1] == blocks[i])
        }),
{
    reveal_strlit("type");
    reveal_strlit("message");
    reveal_strlit("role");
    reveal_strlit("content");
    assert("type"@.len() == 4 && "message"@.len() == 7 && "role"@.len() == 4 && "content"@.len()
        == 7);
    let d = message_doc(message, blocks);
    let f = d->Obj_0;
    reveal_with_fuel(crate::json::member_in, 3);
    assert(f[0].0 == "type"@ && f[1].0 == "message"@);
    assert(f.skip(1)[0] == f[1]);
    let m = f[1].1;
    let g = m->Obj_0;
    assert(g[0].0 == "role"@ && g[1].0 == "content"@);
    assert(g.skip(1)[0] == g[1]);
    let c = g[1].1->Arr_0;
    let o = c[0]->Obj_0;
    assert(o[1] == ("text"@, jstr(message)));
}

/// Images are shown as images of their own type and papers as documents; any other
/// file is not shown.
pub proof fn law_files_are_shown_as_what_they_are(path: Seq<char>, data: Seq<char>)
    ensures
        shows_image(path) ==> (encoded_block(path, data) matches Some(d) && tells(
            d,
            "type"@,
            jstr("image"@),
        )),
        ext_of(path) == "pdf"@ && !shows_image(path) ==> (encoded_block(path, data) matches Some(d)
            && tells(d, "type"@, jstr("document"@))),
        !shows_image(path) && ext_of(path) != "pdf"@ ==> encoded_block(path, data) is None,
        ext_of(path) == "jpg"@ || ext_of(path) == "jpeg"@ ==> encoded_block(path, data) == Some(
            block_doc("image"@, "image/jpeg"@, data),
        ),
        ext_of(path) == "gif"@ ==> encoded_block(path, data) == Some(
            block_doc("image"@, "image/gif"@, data),
        ),
        ext_of(path) == "webp"@ ==> encoded_block(path, data) == Some(
            block_doc("image"@, "image/webp"@, data),
        ),
        ext_of(path) == "png"@ ==> encoded_block(path, data) == Some(
            block_doc("image"@, "image/png"@, data),
        ),
{
    reveal_strlit("png");
    reveal_strlit("jpg");
    reveal_strlit("jpeg");
    reveal_strlit("gif");
    reveal_strlit("webp");
    assert("png"@.len() == 3 && "png"@[0] == 'p');
    assert("jpg"@.len() == 3 && "jpg"@[0] == 'j');
    assert("gif"@.len() == 3 && "gif"@[0] == 'g');
    assert("jpeg"@.len() == 4 && "jpeg"@[0] == 'j');
    assert("webp"@.len() == 4 && "webp"@[0] == 'w');
    if encoded_block(path, data) is Some {
        let o = encoded_block(path, data)->0->Obj_0;
        assert(o[0].0 == "type"@);
    }
}

/// What is shown carries the data that it is made of.
pub proof fn law_shown_files_carry_their_data(kind: Seq<char>, media: Seq<char>, data: Seq<char>)
    ensures
        tells(block_doc(kind, media, data), "type"@, jstr(kind)),
        block_doc(kind, media, data) matches Doc::Obj(f) && f.len() == 2 && f[1].0 == "source"@
            && tells(f[1].1, "data"@, jstr(data)) && tells(f[1].1, "media_type"@, jstr(media)),
{
    let f = block_doc(kind, media, data)->Obj_0;
    assert(f[0] == ("type"@, jstr(kind)));
    let g = f[1].1->Obj_0;
    assert(g[1] == ("media_type"@, jstr(media)));
    assert(g[2] == ("data"@, jstr(data)));
}

/// Every file that could be read and can be shown is shown, in order; the others are
/// left out.
pub proof fn law_every_readable_file_is_shown(
    paths: Seq<Seq<char>>,
    contents: Seq<Option<Vec<u8>>>,
    path: Seq<char>,
)
    requires
        contents.len() > paths.len(),
    ensures
        contents[paths.len() as int] matches Some(bytes) ==> match encoded_block(
            path,
            base64_text(bytes@),
        ) {
            Some(b) => shown_blocks(paths.push(path), contents) == shown_blocks(
                paths,
                contents,
            ).push(b),
            None => shown_blocks(paths.push(path), contents) == shown_blocks(paths, contents),
        },
        contents[paths.len() as int] is None ==> shown_blocks(paths.push(path), contents)
            == shown_blocks(paths, contents),
        shown_blocks(Seq::empty(), contents).len() == 0,
{
    assert(paths.push(path).drop_last() =~= paths);
}

// ---- Tools -----------------------------------------------------------------------------

/// Each use of a tool in a reply is told, in order, with its name; what is no use of a
/// tool is not told as one.
pub proof fn law_tool_uses_are_told(agent: AgentId, turn: TurnId, blocks: Seq<Doc>, b: Doc, name: Seq<char>)
    ensures
        !block_is(b, "tool_use"@) ==> tool_calls(agent, turn, blocks.push(b)) == tool_calls(
            agent,
            turn,
            blocks,
        ),
        block_is(b, "tool_use"@) && doc_str(member(b, "name"@)) == Some(name) ==> {
            let t = tool_calls(agent, turn, blocks.push(b));
            &&& t.len() == tool_calls(agent, turn, blocks).len() + 1
            &&& t.drop_last() == tool_calls(agent, turn, blocks)
            &&& t.last() is ToolCall && t.last()->ToolCall_name == name
                && t.last()->ToolCall_agent == agent && t.last()->ToolCall_turn == turn
        },
        tool_calls(agent, turn, Seq::empty()).len() == 0,
{
    assert(blocks.push(b).drop_last() =~= blocks);
    if block_is(b, "tool_use"@) {
        let t = tool_calls(agent, turn, blocks.push(b));
        assert(t.drop_last() =~= tool_calls(agent, turn, blocks));
    }
}

/// The texts of a list are taken from it, in order, and nothing else is.
pub proof fn law_lists_give_their_texts(items: Seq<Doc>, d: Doc)
    ensures
        d matches Doc::Str(s) ==> string_items(items.push(d)) == string_items(items).push(s),
        !(d is Str) ==> string_items(items.push(d)) == string_items(items),
        string_items(Seq::empty()).len() == 0,
{
    assert(items.push(d).drop_last() =~= items);
}

/// A message that begins begins the next turn; the skills that a session offers are
/// told when it is ready.
pub proof fn law_messages_begin_turns(agent: AgentId, turn: TurnId, d: Doc)
    ensures
        begins_turn(d) ==> claude_events(agent, turn, d) == seq![
            Happening::TurnStarted { agent, turn: turn_after(turn) },
        ],
        turn < TurnId::MAX ==> turn_after(turn) == turn + 1,
        doc_str(member(d, "type"@)) == Some("system"@) && doc_str(member(d, "subtype"@)) == Some(
            "init"@,
        ) && string_items(doc_items(member(d, "skills"@))).len() > 0 ==> claude_events(
            agent,
            turn,
            d,
        ).contains(
            Happening::Skills { agent, skills: string_items(doc_items(member(d, "skills"@))) },
        ),
{
    reveal_strlit("system");
    reveal_strlit("stream_event");
    assert("system"@.len() == 6 && "stream_event"@.len() == 12);
    let e = claude_events(agent, turn, d);
    if doc_str(member(d, "type"@)) == Some("system"@) && doc_str(member(d, "subtype"@)) == Some(
        "init"@,
    ) && string_items(doc_items(member(d, "skills"@))).len() > 0 {
        assert(e[e.len() - 1] == (Happening::Skills {
            agent,
            skills: string_items(doc_items(member(d, "skills"@))),
        }));
    }
}

/// The use of a tool is summed up by its kind and by the first thing that it tells of
/// itself, cut to eighty characters.
pub proof fn law_tool_uses_are_summed_up(kind: Seq<char>, item: Doc, keys: Seq<Seq<char>>, k: int)
    ensures
        says(tool_summary(kind, item), kind),
        told_first(item, crate::codex::telling_keys()) matches Some(t) ==> says(
            tool_summary(kind, item),
            shortened(t, 80),
        ),
        told_first(item, crate::codex::telling_keys()) is None ==> tool_summary(kind, item) == kind,
        0 <= k < keys.len() && told_under(item, keys[k]) is Some && (forall|j: int|
            0 <= j < k ==> told_under(item, #[trigger] keys[j]) is None) ==> told_first(item, keys)
            == told_under(item, keys[k]),
        (forall|j: int| 0 <= j < keys.len() ==> told_under(item, #[trigger] keys[j]) is None)
            ==> told_first(item, keys) is None,
    decreases keys.len(),
{
    broadcast use group_says;

    if keys.len() > 0 {
        let t = keys.drop_last();
        law_tool_uses_are_summed_up(kind, item, t, k);
        assert forall|j: int| 0 <= j < t.len() implies t[j] == keys[j] by {}
        assert(keys.last() == keys[keys.len() - 1]);
        if forall|j: int| 0 <= j < k ==> told_under(item, #[trigger] keys[j]) is None {
            assert forall|j: int| 0 <= j < k && j < t.len() implies told_under(
                item,
                #[trigger] t[j],
            ) is None by {
                assert(t[j] == keys[j]);
            }
        }
        if forall|j: int| 0 <= j < keys.len() ==> told_under(item, #[trigger] keys[j]) is None {
            assert forall|j: int| 0 <= j < t.len() implies told_under(item, #[trigger] t[j]) is None by {
                assert(t[j] == keys[j]);
            }
        }
    }
}

/// What is too long is cut at the end, and marked; what is short enough is whole.
pub proof fn law_long_texts_are_shortened(s: Seq<char>, max: nat)
    ensures
        s.len() <= max ==> shortened(s, max) == s,
        s.len() > max && max > 0 ==> shortened(s, max).len() == max && shortened(s, max).take(
            max - 1,
        ) == s.take(max - 1),
{
    reveal_strlit("…");
    if s.len() > max && max > 0 {
        assert(shortened(s, max).take(max - 1) =~= s.take(max - 1));
    }
}

/// Whatever a tool tells of itself is told without the space around it, and a text by
/// its first line.
pub proof fn law_tools_tell_of_themselves(item: Doc, key: Seq<char>, text: Seq<char>)
    ensures
        told_under(item, key) matches Some(t) ==> t.len() > 0 && member(item, key) is Some,
        member(item, key) is None ==> told_under(item, key) is None,
        !text.contains('\n') && text.len() > 0 && trim(text).len() > 0 && member(item, key) == Some(
            Doc::Str(text),
        ) ==> told_under(item, key) == Some(trim(text)),
{
    if !text.contains('\n') && text.len() > 0 {
        crate::scan_laws::law_lines_end_at_breaks(text, Seq::empty());
    }
}

} // verus!
