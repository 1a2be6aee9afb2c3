//! Topic names as paths: the segments between the slashes.

use vstd::prelude::*;
use vstd::string::*;
use vstd::utf8::*;

verus! {

/// The segments of a topic name: what stands between its slashes, in order.
/// A name without a slash is one segment; a name of `n` slashes has `n + 1`
/// segments, some of which may be empty.
pub open spec fn segments(text: Seq<char>) -> Seq<Seq<char>>
    decreases text.len(),
{
    if text.len() == 0 {
        seq![Seq::empty()]
    } else {
        let before = segments(text.drop_last());
        if text.last() == '/' {
            before.push(Seq::empty())
        } else {
            before.drop_last().push(before.last().push(text.last()))
        }
    }
}

/// Parts put together again, with a slash between each two.
pub open spec fn rejoined(parts: Seq<Seq<char>>) -> Seq<char>
    decreases parts.len(),
{
    if parts.len() == 0 {
        Seq::empty()
    } else if parts.len() == 1 {
        parts[0]
    } else {
        rejoined(parts.drop_last()) + seq!['/'] + parts.last()
    }
}

/// What `segments` gives: at least one segment, none of them with a slash
/// in it, which put together again with slashes are the topic name. There
/// is one such splitting only, so this says what the segments are.
pub proof fn law_segments(text: Seq<char>)
    ensures
        segments(text).len() >= 1,
        forall|i: int, j: int|
            0 <= i < segments(text).len() && 0 <= j < segments(text)[i].len() ==> (
            #[trigger] segments(text)[i][j]) != '/',
        rejoined(segments(text)) == text,
    decreases text.len(),
{
    let parts = segments(text);
    if text.len() == 0 {
        assert(rejoined(parts) =~= text);
    } else {
        let shorter = text.drop_last();
        let before = segments(shorter);
        let c = text.last();
        law_segments(shorter);
        assert(text =~= shorter.push(c));
        if c == '/' {
            assert(parts.drop_last() =~= before);
            assert(rejoined(parts) =~= text);
            assert forall|i: int, j: int|
                0 <= i < parts.len() && 0 <= j < parts[i].len() implies (#[trigger] parts[i][j])
                != '/' by {
                assert(parts[i] == before[i]);
            }
        } else {
            let last = before.last().push(c);
            assert(parts.last() == last);
            assert(parts.drop_last() =~= before.drop_last());
            if before.len() == 1 {
                assert(rejoined(parts) =~= text);
            } else {
                assert(rejoined(parts) =~= rejoined(before).push(c));
            }
            assert forall|i: int, j: int|
                0 <= i < parts.len() && 0 <= j < parts[i].len() implies (#[trigger] parts[i][j])
                != '/' by {
                if i < parts.len() - 1 {
                    assert(parts[i] == before[i]);
                } else if j < before.last().len() {
                    assert(parts[i][j] == before[i][j]);
                }
            }
        }
    }
}

/// A name without a slash is one segment.
pub proof fn law_one_segment(text: Seq<char>)
    requires
        !text.contains('/'),
    ensures
        segments(text) == seq![text],
    decreases text.len(),
{
    if text.len() > 0 {
        let shorter = text.drop_last();
        assert(!shorter.contains('/')) by {
            if shorter.contains('/') {
                let i = choose|i: int| 0 <= i < shorter.len() && shorter[i] == '/';
                assert(text[i] == '/');
            }
        }
        law_one_segment(shorter);
        assert(text.last() != '/') by {
            assert(text[text.len() - 1] == text.last());
        }
        assert(shorter.push(text.last()) =~= text);
        assert(seq![shorter].drop_last().push(text) =~= seq![text]);
    } else {
        assert(text =~= Seq::<char>::empty());
    }
}

/// The first segment ends at the first slash, and the other segments are
/// those of what follows that slash.
pub proof fn law_first_segment(head: Seq<char>, rest: Seq<char>)
    requires
        !head.contains('/'),
    ensures
        segments(head + seq!['/'] + rest) == seq![head] + segments(rest),
    decreases rest.len(),
{
    let text = head + seq!['/'] + rest;
    if rest.len() == 0 {
        assert(text.drop_last() =~= head);
        law_one_segment(head);
        assert(segments(rest) =~= seq![Seq::<char>::empty()]);
        assert(segments(text) =~= seq![head] + segments(rest));
    } else {
        let shorter = rest.drop_last();
        assert(text.drop_last() =~= head + seq!['/'] + shorter);
        assert(text.last() == rest.last());
        law_first_segment(head, shorter);
        law_segments(shorter);
        let before = segments(shorter);
        if rest.last() == '/' {
            assert((seq![head] + before).push(Seq::<char>::empty()) =~= seq![head] + before.push(
                Seq::<char>::empty(),
            ));
        } else {
            let grown = before.last().push(rest.last());
            assert((seq![head] + before).drop_last() =~= seq![head] + before.drop_last());
            assert((seq![head] + before).last() == before.last());
            assert((seq![head] + before.drop_last()).push(grown) =~= seq![head]
                + before.drop_last().push(grown));
        }
    }
}

/// The text that is one slash.
spec fn slash() -> Seq<char> {
    seq!['/']
}

/// In UTF-8 a slash is the one byte 0x2f.
proof fn lemma_slash_bytes()
    ensures
        encode_utf8(slash()) == seq![0x2fu8],
{
    assert(0x2fu32 & 0x7f == 0x2f) by (bit_vector);
    reveal_with_fuel(encode_utf8, 2);
    assert(slash().drop_first() =~= Seq::<char>::empty());
    assert(encode_utf8(slash()) =~= seq![0x2fu8]);
}

/// A text with a slash in it has the byte 0x2f among its UTF-8 bytes.
proof fn lemma_slash_shows(text: Seq<char>)
    requires
        text.contains('/'),
    ensures
        encode_utf8(text).contains(0x2fu8),
    decreases text.len(),
{
    let bytes = encode_utf8(text);
    let first = encode_scalar(text[0] as u32);
    let others = encode_utf8(text.drop_first());
    assert(bytes == first + others);
    if text[0] == '/' {
        assert(0x2fu32 & 0x7f == 0x2f) by (bit_vector);
        assert(first[0] == 0x2fu8);
        assert(bytes[0] == 0x2fu8);
    } else {
        let i = choose|i: int| 0 <= i < text.len() && text[i] == '/';
        assert(text.drop_first()[i - 1] == '/');
        lemma_slash_shows(text.drop_first());
        let j = choose|j: int| 0 <= j < others.len() && others[j] == 0x2fu8;
        assert(bytes[first.len() + j] == 0x2fu8);
    }
}

/// The models of a list of strings, in the list's order.
pub open spec fn strings_view(strings: Seq<String>) -> Seq<Seq<char>> {
    Seq::new(strings.len(), |i: int| strings[i]@)
}

/// Splits a topic name at its slashes.
///
/// The name is walked through once, byte by byte: in UTF-8 the byte 0x2f is
/// a slash wherever it stands, and a slash is that byte.
pub fn split_topic(topic: &str) -> (parts: Vec<String>)
    ensures
        strings_view(parts@) == segments(topic@),
{
    let mut parts: Vec<String> = Vec::new();
    let mut remaining: &str = topic;
    assert(strings_view(parts@) + segments(remaining@) =~= segments(topic@));
    loop
        invariant_except_break
            segments(topic@) == strings_view(parts@) + segments(remaining@),
        ensures
            strings_view(parts@) == segments(topic@),
        decreases remaining.spec_bytes().len(),
    {
        let ghost done = strings_view(parts@);
        let bytes = remaining.as_bytes();
        proof {
            encode_utf8_valid_utf8(remaining@);
        }
        let mut j: usize = 0;
        while j < bytes.len() && bytes[j] != 0x2f
            invariant
                j <= bytes.len(),
                forall|k: int| 0 <= k < j ==> bytes@[k] != 0x2fu8,
            decreases bytes.len() - j,
        {
            j = j + 1;
        }
        if j == bytes.len() {
            proof {
                if remaining@.contains('/') {
                    lemma_slash_shows(remaining@);
                }
                law_one_segment(remaining@);
            }
            let last = remaining.to_owned();
            proof {
                assert(strings_view(parts@.push(last)) =~= done + seq![remaining@]);
            }
            parts.push(last);
            break ;
        }
        proof {
            is_char_boundary_iff_not_is_continuation_byte(bytes@, j as int);
        }
        let (head, tail) = remaining.split_at(j);
        proof {
            valid_utf8_split(bytes@, j as int);
            decode_utf8_split(bytes@, j as int);
            let tail_bytes = tail.spec_bytes();
            assert(tail_bytes[0] == 0x2fu8);
            reveal_with_fuel(is_char_boundary, 2);
            reveal_with_fuel(valid_utf8, 2);
            assert(is_char_boundary(tail_bytes, 1));
        }
        let (_, rest) = tail.split_at(1);
        proof {
            let tail_bytes = tail.spec_bytes();
            valid_utf8_split(tail_bytes, 1);
            decode_utf8_split(tail_bytes, 1);
            encode_utf8_decode_utf8(remaining@);
            encode_utf8_decode_utf8(head@);
            encode_utf8_decode_utf8(tail@);
            encode_utf8_decode_utf8(rest@);
            lemma_slash_bytes();
            encode_utf8_decode_utf8(slash());
            assert(tail_bytes.subrange(0, 1) =~= seq![0x2fu8]);
            assert(remaining@ =~= head@ + seq!['/'] + rest@);
            if head@.contains('/') {
                lemma_slash_shows(head@);
                let k = choose|k: int|
                    0 <= k < head.spec_bytes().len() && head.spec_bytes()[k] == 0x2fu8;
                assert(bytes@[k] == 0x2fu8);
            }
            law_first_segment(head@, rest@);
        }
        let part = head.to_owned();
        proof {
            assert(strings_view(parts@.push(part)) + segments(rest@) =~= done + (seq![head@]
                + segments(rest@)));
        }
        parts.push(part);
        remaining = rest;
    }
    parts
}

/// How many leading segments of a topic are routing scaffolding.
pub const ROUTING_PREFIX: usize = 2;

/// The routable path of a topic: its segments behind the first two. A topic
/// of fewer than two segments has none.
pub open spec fn routable(text: Seq<char>) -> Option<Seq<Seq<char>>> {
    if segments(text).len() >= ROUTING_PREFIX {
        Some(segments(text).skip(ROUTING_PREFIX as int))
    } else {
        None
    }
}

/// The routable path of a topic.
pub fn routable_path(topic: &str) -> (path: Option<Vec<String>>)
    ensures
        match routable(topic@) {
            Some(rest) => path matches Some(found) && strings_view(found@) == rest,
            None => path is None,
        },
{
    let mut parts = split_topic(topic);
    if parts.len() >= ROUTING_PREFIX {
        let ghost all = parts@;
        let rest = parts.split_off(ROUTING_PREFIX);
        assert(strings_view(rest@) =~= strings_view(all).skip(ROUTING_PREFIX as int));
        Some(rest)
    } else {
        None
    }
}

} // verus!
