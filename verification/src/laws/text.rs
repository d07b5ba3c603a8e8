//! Laws on text.
use crate::text::{
    is_ascii_alphanumeric, is_generated_room_id, is_white_space, law_trims_to_nothing_iff_blank,
    lemma_trimmed_bounds, optional_text, texts, trimmed,
};
use vstd::prelude::*;

verus! {

/// The code points that Unicode gives the `White_Space` property.
pub open spec fn white_space_codes() -> Seq<u32> {
    seq![
        0x9u32,
        0xa,
        0xb,
        0xc,
        0xd,
        0x20,
        0x85,
        0xa0,
        0x1680,
        0x2000,
        0x2001,
        0x2002,
        0x2003,
        0x2004,
        0x2005,
        0x2006,
        0x2007,
        0x2008,
        0x2009,
        0x200a,
        0x2028,
        0x2029,
        0x202f,
        0x205f,
        0x3000,
    ]
}

/// White space is what Unicode says it is.
pub proof fn law_white_space_is_unicodes(c: char)
    ensures
        is_white_space(c) <==> white_space_codes().contains(c as u32),
{
    let codes = white_space_codes();
    let code = c as u32;
    assert(codes.len() == 25);
    if is_white_space(c) {
        assert(codes[0] == 0x9 && codes[1] == 0xa && codes[2] == 0xb && codes[3] == 0xc && codes[4]
            == 0xd && codes[5] == 0x20 && codes[6] == 0x85 && codes[7] == 0xa0 && codes[8] == 0x1680
            && codes[9] == 0x2000 && codes[10] == 0x2001 && codes[11] == 0x2002 && codes[12]
            == 0x2003 && codes[13] == 0x2004 && codes[14] == 0x2005 && codes[15] == 0x2006
            && codes[16] == 0x2007 && codes[17] == 0x2008 && codes[18] == 0x2009 && codes[19]
            == 0x200a && codes[20] == 0x2028 && codes[21] == 0x2029 && codes[22] == 0x202f
            && codes[23] == 0x205f && codes[24] == 0x3000);
        if 0x9 <= code <= 0xd {
            assert(codes[code - 0x9] == code);
        } else if 0x2000 <= code <= 0x200a {
            assert(codes[code - 0x2000 + 9] == code);
        }
    }
}

/// `rest` is what stands in `s` between the white space at its ends.
pub open spec fn is_without_ends(s: Seq<char>, rest: Seq<char>, i: int, j: int) -> bool {
    &&& 0 <= i <= j <= s.len()
    &&& rest == s.subrange(i, j)
    &&& forall|k: int| 0 <= k < i ==> white_space_codes().contains((#[trigger] s[k]) as u32)
    &&& forall|k: int| j <= k < s.len() ==> white_space_codes().contains((#[trigger] s[k]) as u32)
    &&& rest.len() > 0 ==> !white_space_codes().contains(rest[0] as u32)
    &&& rest.len() > 0 ==> !white_space_codes().contains(rest[rest.len() - 1] as u32)
}

/// What trimming takes away is white space at the ends, and all of that. Everything in between
/// stays.
pub proof fn law_trimming_takes_white_space_only(s: Seq<char>)
    ensures
        exists|i: int, j: int| #[trigger] is_without_ends(s, trimmed(s), i, j),
{
    let (i, j) = lemma_trimmed_bounds(s);
    assert forall|k: int| 0 <= k < i implies white_space_codes().contains(
        (#[trigger] s[k]) as u32,
    ) by {
        law_white_space_is_unicodes(s[k]);
    }
    assert forall|k: int| j <= k < s.len() implies white_space_codes().contains(
        (#[trigger] s[k]) as u32,
    ) by {
        law_white_space_is_unicodes(s[k]);
    }
    if trimmed(s).len() > 0 {
        law_white_space_is_unicodes(trimmed(s)[0]);
        law_white_space_is_unicodes(trimmed(s)[trimmed(s).len() - 1]);
    }
    assert(is_without_ends(s, trimmed(s), i, j));
}

/// A text without white space at its ends stays as it is, however long it is.
pub proof fn law_trimming_keeps_solid_text(s: Seq<char>)
    requires
        s.len() > 0 ==> !white_space_codes().contains(s[0] as u32),
        s.len() > 0 ==> !white_space_codes().contains(s[s.len() - 1] as u32),
    ensures
        trimmed(s) == s,
{
    let (i, j) = lemma_trimmed_bounds(s);
    if s.len() > 0 {
        law_white_space_is_unicodes(s[0]);
        law_white_space_is_unicodes(s[s.len() - 1]);
        assert(i == 0);
        assert(j == s.len());
    }
    assert(s.subrange(i, j) =~= s);
}

/// The text holds nothing but white space.
pub open spec fn is_blank(text: Seq<char>) -> bool {
    forall|i: int| 0 <= i < text.len() ==> white_space_codes().contains((#[trigger] text[i]) as u32)
}

/// Trimming leaves nothing exactly of a text that holds nothing but white space.
pub proof fn law_blank_text_trims_to_nothing(text: Seq<char>)
    ensures
        trimmed(text).len() == 0 <==> is_blank(text),
{
    law_trims_to_nothing_iff_blank(text);
    assert forall|i: int| 0 <= i < text.len() implies is_white_space(#[trigger] text[i])
        == white_space_codes().contains(text[i] as u32) by {
        law_white_space_is_unicodes(text[i]);
    }
}

/// A room ID that was drawn is `!`, eighteen letters and digits of ASCII, `:`, and the server.
pub proof fn law_drawn_room_id_has_its_form(room: Seq<char>, server: Seq<char>)
    requires
        is_generated_room_id(room, server),
    ensures
        room == seq!['!'] + room.subrange(1, 19) + seq![':'] + server,
        room.len() == server.len() + 20,
        forall|i: int|
            1 <= i < 19 ==> ('0' <= #[trigger] room[i] <= '9' || 'A' <= room[i] <= 'Z' || 'a'
                <= room[i] <= 'z'),
{
    let form = seq!['!'] + room.subrange(1, 19) + seq![':'] + server;
    assert(form.len() == room.len());
    assert forall|i: int| 0 <= i < room.len() implies room[i] == form[i] by {
        if i >= 20 {
            assert(room.skip(20)[i - 20] == room[i]);
        }
    }
    assert(form =~= room);
    assert forall|i: int| 1 <= i < 19 implies ('0' <= #[trigger] room[i] <= '9' || 'A' <= room[i]
        <= 'Z' || 'a' <= room[i] <= 'z') by {
        assert(is_ascii_alphanumeric(room[i]));
    }
}

/// The texts of strings are those of each, in order, and none else.
pub proof fn law_texts_are_those_of_the_strings(strings: Seq<String>, string: Option<String>)
    ensures
        texts(strings).len() == strings.len(),
        forall|i: int| 0 <= i < strings.len() ==> #[trigger] texts(strings)[i] == strings[i]@,
        string is Some ==> optional_text(string) == Some(string->0@),
        string is None ==> optional_text(string) is None,
{
}

} // verus!
