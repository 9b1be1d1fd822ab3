//! A session description written as SDP text reads back as the same media
//! sections: what one peer renders, the other parses.
use crate::number::{dec, lemma_dec_plain, lemma_parse_dec, parse_unsigned};
use crate::sdp::attribute::{attribute_text, AttributeView};
use crate::sdp::attribute_roundtrip::{
    lemma_attribute_line, lemma_attribute_text_roundtrip, plain_token, renders_faithfully,
};
use crate::sdp::error::SdpError;
use crate::sdp::media_description::{
    attributes_text, fmt_set, fmts_text, media_description_text, parse_media_description,
    MediaDescriptionView,
};
use crate::sdp::session_description::{
    apply_sdp_line, media_descriptions_text, parse_sdp, parse_sdp_lines, session_description_text,
    SessionDescriptionView,
};
use crate::text::{
    is_ws, join, join_ws, lacks, lemma_find_char_at, lemma_join_append, lemma_join_lacks,
    lemma_join_last, lemma_split_by_join, lemma_split_ws_join, lemma_trim_frame,
    lemma_trim_keeps_head, no_ws, split_once, split_ws, trim,
};
use vstd::prelude::*;

verus! {

/// Whether a section accepts an attribute line: the attribute renders
/// faithfully and any format it maps is one the section lists.
pub open spec fn section_accepts(fmts: Set<u8>, a: AttributeView) -> bool {
    &&& renders_faithfully(a)
    &&& (a matches AttributeView::RTPMap(fmt, _, _, _) ==> fmts.contains(fmt))
}

/// Whether a media section's text reads back as the section: its media
/// type and protocol are single tokens, it lists at least one format, and
/// the section accepts each of its attributes.
pub open spec fn section_renders_faithfully(md: MediaDescriptionView) -> bool {
    &&& plain_token(md.media_type)
    &&& plain_token(md.protocol)
    &&& exists|f: u8| md.fmts.contains(f)
    &&& forall|i: int|
        0 <= i < md.attributes.len() ==> section_accepts(md.fmts, #[trigger] md.attributes[i])
}

/// Whether a session description's text reads back as its media sections:
/// its session name, timing and connection data hold no line break, and
/// every section renders faithfully.
pub open spec fn description_renders_faithfully(d: SessionDescriptionView) -> bool {
    &&& lacks(d.session_name, '\n')
    &&& lacks(d.timing, '\n')
    &&& lacks(d.connection_data, '\n')
    &&& forall|i: int|
        0 <= i < d.media_descriptions.len() ==> section_renders_faithfully(
            #[trigger] d.media_descriptions[i],
        )
}

/// The decimal texts of the formats below `upto`, in increasing order.
pub open spec fn fmt_tokens(fmts: Set<u8>, upto: nat) -> Seq<Seq<char>>
    decreases upto,
{
    if upto == 0 {
        Seq::empty()
    } else {
        fmt_tokens(fmts, (upto - 1) as nat) + if fmts.contains((upto - 1) as u8) {
            seq![dec((upto - 1) as nat)]
        } else {
            Seq::empty()
        }
    }
}

/// The whitespace-separated tokens of a section's `m=` line.
pub open spec fn media_tokens(md: MediaDescriptionView) -> Seq<Seq<char>> {
    seq![md.media_type, dec(md.port as nat), md.protocol] + fmt_tokens(md.fmts, 256)
}

/// The `m=` line of a section.
pub open spec fn media_line(md: MediaDescriptionView) -> Seq<char> {
    "m="@ + join_ws(media_tokens(md))
}

/// The attribute lines of a section, each indented by a space.
pub open spec fn attribute_lines(attrs: Seq<AttributeView>) -> Seq<Seq<char>> {
    Seq::new(attrs.len(), |i: int| " "@ + attribute_text(attrs[i]))
}

/// The lines of a section.
pub open spec fn section_lines(md: MediaDescriptionView) -> Seq<Seq<char>> {
    seq![media_line(md)] + attribute_lines(md.attributes)
}

/// The lines of a list of sections.
pub open spec fn sections_lines(mds: Seq<MediaDescriptionView>) -> Seq<Seq<char>>
    decreases mds.len(),
{
    if mds.len() == 0 {
        Seq::empty()
    } else {
        sections_lines(mds.drop_last()) + section_lines(mds.last())
    }
}

/// The session-level lines of a description.
pub open spec fn head_lines(d: SessionDescriptionView) -> Seq<Seq<char>> {
    seq![
        "v="@ + dec(d.version as nat),
        "o="@ + dec(d.origin_id as nat),
        "s="@ + d.session_name,
        "t="@ + d.timing,
        "c="@ + d.connection_data,
    ]
}

/// All the lines of a description's text.
pub open spec fn description_lines(d: SessionDescriptionView) -> Seq<Seq<char>> {
    head_lines(d) + sections_lines(d.media_descriptions)
}

/// The sections after reading `lines` from the sections `mds` on.
pub open spec fn apply_lines(mds: Seq<MediaDescriptionView>, lines: Seq<Seq<char>>) -> Result<
    Seq<MediaDescriptionView>,
    SdpError,
>
    decreases lines.len(),
{
    if lines.len() == 0 {
        Ok(mds)
    } else {
        match apply_lines(mds, lines.drop_last()) {
            Err(e) => Err(e),
            Ok(m) => apply_sdp_line(m, lines.last()),
        }
    }
}

/// Whether a line is one whose key the reader skips: a non-whitespace key
/// character other than `m` and `a`, then `=`.
pub open spec fn skipped_line(l: Seq<char>) -> bool {
    &&& l.len() >= 2
    &&& !is_ws(l[0])
    &&& l[0] != '='
    &&& l[0] != 'm'
    &&& l[0] != 'a'
    &&& l[1] == '='
}

// ----- reading line by line -----

proof fn lemma_parse_lines_apply(lines: Seq<Seq<char>>)
    ensures
        parse_sdp_lines(lines) == apply_lines(Seq::empty(), lines),
    decreases lines.len(),
{
    if lines.len() > 0 {
        lemma_parse_lines_apply(lines.drop_last());
    }
}

proof fn lemma_apply_lines_append(
    mds: Seq<MediaDescriptionView>,
    l1: Seq<Seq<char>>,
    l2: Seq<Seq<char>>,
)
    ensures
        apply_lines(mds, l1 + l2) == match apply_lines(mds, l1) {
            Ok(m) => apply_lines(m, l2),
            Err(e) => Err(e),
        },
    decreases l2.len(),
{
    if l2.len() == 0 {
        assert(l1 + l2 =~= l1);
    } else {
        lemma_apply_lines_append(mds, l1, l2.drop_last());
        assert((l1 + l2).drop_last() =~= l1 + l2.drop_last());
        assert((l1 + l2).last() == l2.last());
    }
}

proof fn lemma_skipped_line(mds: Seq<MediaDescriptionView>, l: Seq<char>)
    requires
        skipped_line(l),
    ensures
        apply_sdp_line(mds, l) == Ok::<Seq<MediaDescriptionView>, SdpError>(mds),
{
    let k = lemma_trim_keeps_head(l);
    let t = trim(l);
    assert(t[0] == l[0] && t[1] == '=');
    lemma_find_char_at(t, '=', 1);
    assert(t.subrange(0, 1) =~= seq![l[0]]);
    assert(seq![l[0]] != seq!['m']) by {
        assert(seq![l[0]][0] != seq!['m'][0]);
    }
    assert(seq![l[0]] != seq!['a']) by {
        assert(seq![l[0]][0] != seq!['a'][0]);
    }
}

proof fn lemma_skipped_lines(mds: Seq<MediaDescriptionView>, lines: Seq<Seq<char>>)
    requires
        forall|i: int| 0 <= i < lines.len() ==> skipped_line(#[trigger] lines[i]),
    ensures
        apply_lines(mds, lines) == Ok::<Seq<MediaDescriptionView>, SdpError>(mds),
    decreases lines.len(),
{
    if lines.len() > 0 {
        let init = lines.drop_last();
        assert forall|i: int| 0 <= i < init.len() implies skipped_line(#[trigger] init[i]) by {
            assert(init[i] == lines[i]);
        }
        lemma_skipped_lines(mds, init);
        assert(skipped_line(lines[lines.len() - 1]));
        lemma_skipped_line(mds, lines.last());
    }
}

// ----- the session-level lines -----

proof fn lemma_head_lines(d: SessionDescriptionView)
    requires
        description_renders_faithfully(d),
    ensures
        forall|i: int| 0 <= i < head_lines(d).len() ==> skipped_line(#[trigger] head_lines(d)[i]),
        forall|i: int| 0 <= i < head_lines(d).len() ==> lacks(#[trigger] head_lines(d)[i], '\n'),
        "v="@ + dec(d.version as nat) + "\no="@ + dec(d.origin_id as nat) + "\ns="@
            + d.session_name + "\nt="@ + d.timing + "\nc="@ + d.connection_data == join(
            head_lines(d),
            '\n',
        ),
{
    reveal_strlit("v=");
    reveal_strlit("o=");
    reveal_strlit("s=");
    reveal_strlit("t=");
    reveal_strlit("c=");
    reveal_strlit("\no=");
    reveal_strlit("\ns=");
    reveal_strlit("\nt=");
    reveal_strlit("\nc=");
    let h = head_lines(d);
    let l0 = h[0];
    let l1 = h[1];
    let l2 = h[2];
    let l3 = h[3];
    let l4 = h[4];
    lemma_dec_plain(d.version as nat);
    lemma_dec_plain(d.origin_id as nat);
    assert forall|i: int| 0 <= i < h.len() implies skipped_line(#[trigger] h[i]) && lacks(
        h[i],
        '\n',
    ) by {
        let rest = h[i].subrange(2, h[i].len() as int);
        assert(h[i] =~= seq![h[i][0], '='] + rest);
        if i == 0 {
            assert(rest =~= dec(d.version as nat));
        } else if i == 1 {
            assert(rest =~= dec(d.origin_id as nat));
        } else if i == 2 {
            assert(rest =~= d.session_name);
        } else if i == 3 {
            assert(rest =~= d.timing);
        } else {
            assert(rest =~= d.connection_data);
        }
        assert forall|j: int| 0 <= j < h[i].len() implies #[trigger] h[i][j] != '\n' by {
            if j >= 2 {
                assert(h[i][j] == rest[j - 2]);
            }
        }
    }
    let s1 = seq![l0];
    let s2 = seq![l0, l1];
    let s3 = seq![l0, l1, l2];
    let s4 = seq![l0, l1, l2, l3];
    assert(s2.drop_last() =~= s1);
    assert(s3.drop_last() =~= s2);
    assert(s4.drop_last() =~= s3);
    assert(h.drop_last() =~= s4);
    assert(join(s1, '\n') == l0);
    let j2 = join(s2, '\n');
    let j3 = join(s3, '\n');
    let j4 = join(s4, '\n');
    assert(j2 == l0.push('\n') + l1);
    assert(j3 == j2.push('\n') + l2);
    assert(j4 == j3.push('\n') + l3);
    assert(join(h, '\n') == j4.push('\n') + l4);
    assert(l0 + "\no="@ + dec(d.origin_id as nat) =~= j2);
    assert(j2 + "\ns="@ + d.session_name =~= j3);
    assert(j3 + "\nt="@ + d.timing =~= j4);
    assert(j4 + "\nc="@ + d.connection_data =~= join(h, '\n'));
}

// ----- one section -----

proof fn lemma_fmt_tokens(fmts: Set<u8>, upto: nat)
    requires
        upto <= 256,
    ensures
        forall|j: int|
            0 <= j < fmt_tokens(fmts, upto).len() ==> {
                &&& plain_token(#[trigger] fmt_tokens(fmts, upto)[j])
                &&& parse_unsigned(fmt_tokens(fmts, upto)[j], 10, 255) is Some
                &&& fmts.contains(
                    parse_unsigned(fmt_tokens(fmts, upto)[j], 10, 255).unwrap() as u8,
                )
                &&& parse_unsigned(fmt_tokens(fmts, upto)[j], 10, 255).unwrap() < upto
            },
        forall|f: u8|
            f < upto && fmts.contains(f) ==> exists|j: int|
                0 <= j < fmt_tokens(fmts, upto).len() && #[trigger] fmt_tokens(fmts, upto)[j]
                    == dec(f as nat),
    decreases upto,
{
    if upto > 0 {
        let n = (upto - 1) as nat;
        lemma_fmt_tokens(fmts, n);
        let prev = fmt_tokens(fmts, n);
        let cur = fmt_tokens(fmts, upto);
        assert forall|j: int| 0 <= j < prev.len() implies cur[j] == prev[j] by {}
        if fmts.contains(n as u8) {
            assert(cur =~= prev.push(dec(n)));
            lemma_parse_dec(n, 255);
            crate::number::lemma_dec_digits(n);
            lemma_dec_plain(n);
            assert(plain_token(dec(n))) by {
                assert forall|i: int| 0 <= i < dec(n).len() implies !is_ws(#[trigger] dec(n)[i]) by {
                    assert(crate::number::is_digit(dec(n)[i]));
                }
            }
            assert(cur[prev.len() as int] == dec(n));
        } else {
            assert(cur =~= prev);
        }
        assert forall|f: u8| f < upto && fmts.contains(f) implies exists|j: int|
            0 <= j < cur.len() && #[trigger] cur[j] == dec(f as nat) by {
            if f < n {
                let j = choose|j: int| 0 <= j < prev.len() && #[trigger] prev[j] == dec(f as nat);
                assert(cur[j] == prev[j]);
            } else {
                assert(f == n as u8);
                assert(cur[prev.len() as int] == dec(f as nat));
            }
        }
    }
}

proof fn lemma_fmts_text(prefix: Seq<Seq<char>>, fmts: Set<u8>, upto: nat)
    requires
        prefix.len() > 0,
        upto <= 256,
    ensures
        join_ws(prefix + fmt_tokens(fmts, upto)) == join_ws(prefix) + fmts_text(fmts, upto),
    decreases upto,
{
    reveal_strlit(" ");
    if upto == 0 {
        assert(prefix + fmt_tokens(fmts, upto) =~= prefix);
        assert(join_ws(prefix) + fmts_text(fmts, upto) =~= join_ws(prefix));
    } else {
        let n = (upto - 1) as nat;
        lemma_fmts_text(prefix, fmts, n);
        if fmts.contains(n as u8) {
            let prev = prefix + fmt_tokens(fmts, n);
            assert(prefix + fmt_tokens(fmts, upto) =~= prev.push(dec(n)));
            assert(prev.push(dec(n)).drop_last() =~= prev);
            assert(join_ws(prev.push(dec(n))) == join_ws(prev).push(' ') + dec(n));
            assert(join_ws(prefix) + fmts_text(fmts, upto) =~= join_ws(prev).push(' ') + dec(n));
        } else {
            assert(prefix + fmt_tokens(fmts, upto) =~= prefix + fmt_tokens(fmts, n));
            assert(fmts_text(fmts, upto) =~= fmts_text(fmts, n));
        }
    }
}

/// The tokens of a section's `m=` line are single tokens, at least four.
proof fn lemma_media_tokens(md: MediaDescriptionView)
    requires
        section_renders_faithfully(md),
    ensures
        media_tokens(md).len() >= 4,
        forall|i: int|
            0 <= i < media_tokens(md).len() ==> no_ws(#[trigger] media_tokens(md)[i])
                && media_tokens(md)[i].len() > 0 && lacks(media_tokens(md)[i], '\n'),
{
    let tokens = media_tokens(md);
    let head = seq![md.media_type, dec(md.port as nat), md.protocol];
    let fts = fmt_tokens(md.fmts, 256);
    lemma_fmt_tokens(md.fmts, 256);
    let f0 = choose|f: u8| md.fmts.contains(f);
    assert(fts.len() > 0) by {
        let j = choose|j: int| 0 <= j < fts.len() && #[trigger] fts[j] == dec(f0 as nat);
    }
    crate::number::lemma_dec_digits(md.port as nat);
    lemma_dec_plain(md.port as nat);
    assert(plain_token(dec(md.port as nat))) by {
        assert forall|i: int| 0 <= i < dec(md.port as nat).len() implies !is_ws(
            #[trigger] dec(md.port as nat)[i],
        ) by {
            assert(crate::number::is_digit(dec(md.port as nat)[i]));
        }
    }
    assert forall|i: int| 0 <= i < tokens.len() implies no_ws(#[trigger] tokens[i])
        && tokens[i].len() > 0 && lacks(tokens[i], '\n') by {
        if i >= 3 {
            assert(tokens[i] == fts[i - 3]);
            assert(plain_token(fts[i - 3]));
        } else {
            assert(tokens[i] == head[i]);
        }
        assert(plain_token(tokens[i]));
        assert forall|j: int| 0 <= j < tokens[i].len() implies #[trigger] tokens[i][j] != '\n' by {
            assert(!is_ws(tokens[i][j]));
        }
    }
}

/// The body of a section's `m=` line: its tokens joined by spaces.
proof fn lemma_media_body(md: MediaDescriptionView)
    requires
        section_renders_faithfully(md),
    ensures
        media_tokens(md).len() >= 4,
        split_ws(join_ws(media_tokens(md))) == media_tokens(md),
        lacks(join_ws(media_tokens(md)), '\n'),
        join_ws(media_tokens(md)).len() > 0,
        !is_ws(join_ws(media_tokens(md)).last()),
        join_ws(media_tokens(md)) == md.media_type + " "@ + dec(md.port as nat) + " "@
            + md.protocol + fmts_text(md.fmts, 256),
{
    reveal_strlit(" ");
    let tokens = media_tokens(md);
    let head = seq![md.media_type, dec(md.port as nat), md.protocol];
    lemma_media_tokens(md);
    let body = join_ws(tokens);
    lemma_split_ws_join(tokens);
    lemma_join_lacks(tokens, ' ', '\n');
    assert(tokens.last() == tokens[tokens.len() - 1]);
    lemma_join_last(tokens, ' ');
    assert(!is_ws(body.last())) by {
        assert(tokens.last()[tokens.last().len() - 1] == tokens.last().last());
    }
    let h2 = seq![md.media_type, dec(md.port as nat)];
    assert(head.drop_last() =~= h2);
    assert(h2.drop_last() =~= seq![md.media_type]);
    assert(join(seq![md.media_type], ' ') == md.media_type);
    assert(join(h2, ' ') == md.media_type.push(' ') + dec(md.port as nat));
    assert(join(head, ' ') == join(h2, ' ').push(' ') + md.protocol);
    assert(join_ws(head) =~= md.media_type + " "@ + dec(md.port as nat) + " "@ + md.protocol);
    lemma_fmts_text(head, md.fmts, 256);
}

/// The body of a section's `m=` line reads back as the section without its
/// attributes.
#[verifier::rlimit(40)]
proof fn lemma_media_parse(md: MediaDescriptionView)
    requires
        section_renders_faithfully(md),
        media_tokens(md).len() >= 4,
        split_ws(join_ws(media_tokens(md))) == media_tokens(md),
    ensures
        parse_media_description(join_ws(media_tokens(md))) == Some(
            MediaDescriptionView { attributes: Seq::empty(), ..md },
        ),
{
    let tokens = media_tokens(md);
    let fts = fmt_tokens(md.fmts, 256);
    lemma_fmt_tokens(md.fmts, 256);
    lemma_parse_dec(md.port as nat, 65535);
    assert(tokens[1] == dec(md.port as nat));
    assert forall|i: int| 3 <= i < tokens.len() implies #[trigger] parse_unsigned(
        tokens[i],
        10,
        255,
    ) is Some by {
        assert(tokens[i] == fts[i - 3]);
    }
    let fs = fmt_set(tokens, tokens.len() as int);
    assert(fs =~= md.fmts) by {
        assert forall|f: u8| fs.contains(f) implies md.fmts.contains(f) by {
            let i = choose|i: int|
                3 <= i < tokens.len() && #[trigger] parse_unsigned(tokens[i], 10, 255) == Some(
                    f as int,
                );
            assert(tokens[i] == fts[i - 3]);
        }
        assert forall|f: u8| md.fmts.contains(f) implies fs.contains(f) by {
            let j = choose|j: int| 0 <= j < fts.len() && #[trigger] fts[j] == dec(f as nat);
            assert(tokens[j + 3] == fts[j]);
            lemma_parse_dec(f as nat, 255);
            assert(parse_unsigned(tokens[j + 3], 10, 255) == Some(f as int));
        }
    }
}

/// A section's `m=` line is one line, its own trim, and splits at its `=`
/// into the key `m` and the body.
proof fn lemma_media_line_text(md: MediaDescriptionView)
    requires
        section_renders_faithfully(md),
    ensures
        lacks(media_line(md), '\n'),
        media_line(md) + attributes_text(md.attributes) == media_description_text(md),
        trim(media_line(md)) == media_line(md),
        split_once(media_line(md), '=') == Some((seq!['m'], join_ws(media_tokens(md)))),
{
    reveal_strlit("m=");
    lemma_media_body(md);
    let body = join_ws(media_tokens(md));
    let line = media_line(md);
    assert(line =~= seq!['m', '='] + body);
    assert(media_line(md) + attributes_text(md.attributes) =~= media_description_text(md));
    assert forall|j: int| 0 <= j < line.len() implies #[trigger] line[j] != '\n' by {
        if j >= 2 {
            assert(line[j] == body[j - 2]);
        }
    }
    assert(line.last() == body.last());
    lemma_trim_frame(line, 0);
    assert(line.subrange(0, line.len() as int) =~= line);
    lemma_find_char_at(line, '=', 1);
    assert(line.subrange(0, 1) =~= seq!['m']);
    assert(line.subrange(2, line.len() as int) =~= body);
}

/// Reading a section's `m=` line starts the section, without attributes.
proof fn lemma_media_line(mds: Seq<MediaDescriptionView>, md: MediaDescriptionView)
    requires
        section_renders_faithfully(md),
    ensures
        lacks(media_line(md), '\n'),
        media_line(md) + attributes_text(md.attributes) == media_description_text(md),
        apply_sdp_line(mds, media_line(md)) == Ok::<Seq<MediaDescriptionView>, SdpError>(
            mds.push(MediaDescriptionView { attributes: Seq::empty(), ..md }),
        ),
{
    lemma_media_body(md);
    lemma_media_parse(md);
    lemma_media_line_text(md);
    assert(trim(media_line(md)).len() != 0);
}

/// An attribute line is one line; trimmed, it splits at its first `=` into
/// the key `a` and the attribute's text after `a=`.
proof fn lemma_attribute_line_text(a: AttributeView)
    requires
        renders_faithfully(a),
    ensures
        lacks(" "@ + attribute_text(a), '\n'),
        trim(" "@ + attribute_text(a)) == attribute_text(a),
        split_once(attribute_text(a), '=') == Some(
            (seq!['a'], attribute_text(a).subrange(2, attribute_text(a).len() as int)),
        ),
{
    reveal_strlit(" ");
    let t = attribute_text(a);
    let line = " "@ + t;
    lemma_attribute_line(a);
    assert(line =~= seq![' '] + t);
    assert forall|j: int| 0 <= j < line.len() implies #[trigger] line[j] != '\n' by {
        if j >= 1 {
            assert(line[j] == t[j - 1]);
        }
    }
    assert(line[1] == t[0]);
    assert(line.last() == t.last());
    lemma_trim_frame(line, 1);
    assert(line.subrange(1, line.len() as int) =~= t);
    lemma_find_char_at(t, '=', 1);
    assert(t.subrange(0, 1) =~= seq!['a']);
}

/// Reading an attribute line adds the attribute to the last section.
proof fn lemma_attribute_line_applies(mds: Seq<MediaDescriptionView>, a: AttributeView)
    requires
        mds.len() > 0,
        section_accepts(mds.last().fmts, a),
    ensures
        lacks(" "@ + attribute_text(a), '\n'),
        apply_sdp_line(mds, " "@ + attribute_text(a)) == Ok::<Seq<MediaDescriptionView>, SdpError>(
            mds.update(
                mds.len() - 1,
                MediaDescriptionView { attributes: mds.last().attributes.push(a), ..mds.last() },
            ),
        ),
{
    lemma_attribute_line_text(a);
    lemma_attribute_line(a);
    lemma_attribute_text_roundtrip(a);
    assert(seq!['a'] != seq!['m']) by {
        assert(seq!['a'][0] != seq!['m'][0]);
    }
}

/// Reading the `m=` line and the first `k` attribute lines of a section.
#[verifier::rlimit(100)]
proof fn lemma_section_prefix(mds: Seq<MediaDescriptionView>, md: MediaDescriptionView, k: int)
    requires
        section_renders_faithfully(md),
        0 <= k <= md.attributes.len(),
    ensures
        apply_lines(mds, seq![media_line(md)] + attribute_lines(md.attributes.take(k))) == Ok::<
            Seq<MediaDescriptionView>,
            SdpError,
        >(mds.push(MediaDescriptionView { attributes: md.attributes.take(k), ..md })),
        forall|i: int| 0 <= i < k + 1 ==> lacks(#[trigger] section_lines(md)[i], '\n'),
        media_line(md) + attributes_text(md.attributes.take(k)) == join(
            seq![media_line(md)] + attribute_lines(md.attributes.take(k)),
            '\n',
        ),
    decreases k,
{
    let ml = media_line(md);
    let attrs = md.attributes;
    let lines = section_lines(md);
    lemma_media_line(mds, md);
    if k == 0 {
        assert(attribute_lines(attrs.take(0)) =~= Seq::<Seq<char>>::empty());
        assert(seq![ml] + attribute_lines(attrs.take(0)) =~= seq![ml]);
        assert(seq![ml].drop_last() =~= Seq::<Seq<char>>::empty());
        assert(attrs.take(0) =~= Seq::<AttributeView>::empty());
        assert(seq![ml].last() == ml);
        assert(apply_lines(mds, Seq::<Seq<char>>::empty()) == Ok::<
            Seq<MediaDescriptionView>,
            SdpError,
        >(mds));
        assert(apply_lines(mds, seq![ml].drop_last()) == Ok::<Seq<MediaDescriptionView>, SdpError>(
            mds,
        ));
        assert(apply_lines(mds, seq![ml]) == apply_sdp_line(mds, ml));
        assert(ml + attributes_text(attrs.take(0)) =~= ml);
        assert(lines[0] == ml);
    } else {
        lemma_section_prefix(mds, md, k - 1);
        let prev = seq![ml] + attribute_lines(attrs.take(k - 1));
        let next = seq![ml] + attribute_lines(attrs.take(k));
        let a = attrs[k - 1];
        let l = " "@ + attribute_text(a);
        assert(next =~= prev.push(l));
        assert(next.drop_last() =~= prev);
        let cur = mds.push(MediaDescriptionView { attributes: attrs.take(k - 1), ..md });
        assert(next.last() == l);
        assert(apply_lines(mds, next) == apply_sdp_line(cur, l));
        assert(section_accepts(md.fmts, attrs[k - 1]));
        lemma_attribute_line_applies(cur, a);
        assert(cur.update(
            cur.len() - 1,
            MediaDescriptionView { attributes: cur.last().attributes.push(a), ..cur.last() },
        ) =~= mds.push(MediaDescriptionView { attributes: attrs.take(k), ..md })) by {
            assert(attrs.take(k - 1).push(a) =~= attrs.take(k));
        }
        assert(lines[k] == l);
        reveal_strlit("\n ");
        reveal_strlit(" ");
        assert(attrs.take(k).drop_last() =~= attrs.take(k - 1));
        assert(attrs.take(k).last() == a);
        assert(join(next, '\n') == join(prev, '\n').push('\n') + l);
        assert(ml + attributes_text(attrs.take(k)) =~= join(next, '\n'));
    }
}

proof fn lemma_section_applies(mds: Seq<MediaDescriptionView>, md: MediaDescriptionView)
    requires
        section_renders_faithfully(md),
    ensures
        apply_lines(mds, section_lines(md)) == Ok::<Seq<MediaDescriptionView>, SdpError>(
            mds.push(md),
        ),
        forall|i: int|
            0 <= i < section_lines(md).len() ==> lacks(#[trigger] section_lines(md)[i], '\n'),
        join(section_lines(md), '\n') == media_description_text(md),
{
    let attrs = md.attributes;
    lemma_media_line(mds, md);
    lemma_section_prefix(mds, md, attrs.len() as int);
    assert(attrs.take(attrs.len() as int) =~= attrs);
    assert(seq![media_line(md)] + attribute_lines(attrs) =~= section_lines(md));
    assert(MediaDescriptionView { attributes: attrs, ..md } == md);
}

proof fn lemma_sections_apply(mds0: Seq<MediaDescriptionView>, mds: Seq<MediaDescriptionView>)
    requires
        forall|i: int| 0 <= i < mds.len() ==> section_renders_faithfully(#[trigger] mds[i]),
    ensures
        apply_lines(mds0, sections_lines(mds)) == Ok::<Seq<MediaDescriptionView>, SdpError>(
            mds0 + mds,
        ),
        forall|i: int|
            0 <= i < sections_lines(mds).len() ==> lacks(#[trigger] sections_lines(mds)[i], '\n'),
    decreases mds.len(),
{
    if mds.len() == 0 {
        assert(mds0 + mds =~= mds0);
    } else {
        let init = mds.drop_last();
        assert forall|i: int| 0 <= i < init.len() implies section_renders_faithfully(
            #[trigger] init[i],
        ) by {
            assert(init[i] == mds[i]);
        }
        lemma_sections_apply(mds0, init);
        assert(section_renders_faithfully(mds[mds.len() - 1]));
        lemma_section_applies(mds0 + init, mds.last());
        lemma_apply_lines_append(mds0, sections_lines(init), section_lines(mds.last()));
        assert((mds0 + init).push(mds.last()) =~= mds0 + mds);
        let a = sections_lines(init);
        let b = section_lines(mds.last());
        assert forall|i: int| 0 <= i < (a + b).len() implies lacks(#[trigger] (a + b)[i], '\n') by {
            if i < a.len() {
                assert((a + b)[i] == a[i]);
            } else {
                assert((a + b)[i] == b[i - a.len()]);
            }
        }
    }
}

proof fn lemma_sections_text(head: Seq<Seq<char>>, mds: Seq<MediaDescriptionView>)
    requires
        head.len() > 0,
        forall|i: int| 0 <= i < mds.len() ==> section_renders_faithfully(#[trigger] mds[i]),
    ensures
        join(head, '\n') + media_descriptions_text(mds) == join(head + sections_lines(mds), '\n'),
    decreases mds.len(),
{
    if mds.len() == 0 {
        assert(head + sections_lines(mds) =~= head);
        assert(join(head, '\n') + media_descriptions_text(mds) =~= join(head, '\n'));
    } else {
        reveal_strlit("\n");
        let init = mds.drop_last();
        assert forall|i: int| 0 <= i < init.len() implies section_renders_faithfully(
            #[trigger] init[i],
        ) by {
            assert(init[i] == mds[i]);
        }
        lemma_sections_text(head, init);
        assert(section_renders_faithfully(mds[mds.len() - 1]));
        lemma_section_applies(Seq::empty(), mds.last());
        let a = head + sections_lines(init);
        let b = section_lines(mds.last());
        assert(head + sections_lines(mds) =~= a + b);
        lemma_join_append(a, b, '\n');
        assert(join(head, '\n') + media_descriptions_text(mds) =~= join(a, '\n').push('\n') + join(
            b,
            '\n',
        ));
    }
}

/// A session description written as SDP text and read back gives the same
/// media sections, each with the same media type, port, protocol, formats
/// and attributes in the same order. It holds whenever the session name,
/// timing and connection data hold no line break and every section renders
/// faithfully (single-token media type and protocol, at least one format,
/// attributes that render faithfully and map only listed formats).
pub proof fn lemma_session_description_text_roundtrip(d: SessionDescriptionView)
    requires
        description_renders_faithfully(d),
    ensures
        parse_sdp(session_description_text(d)) == Ok::<Seq<MediaDescriptionView>, SdpError>(
            d.media_descriptions,
        ),
{
    let head = head_lines(d);
    let mds = d.media_descriptions;
    let lines = description_lines(d);
    lemma_head_lines(d);
    lemma_sections_text(head, mds);
    assert(session_description_text(d) =~= join(head, '\n') + media_descriptions_text(mds));
    lemma_sections_apply(Seq::empty(), mds);
    let tail = sections_lines(mds);
    assert forall|i: int| 0 <= i < lines.len() implies lacks(#[trigger] lines[i], '\n') by {
        if i < head.len() {
            assert(lines[i] == head[i]);
        } else {
            assert(lines[i] == tail[i - head.len()]);
        }
    }
    lemma_split_by_join(lines, '\n');
    lemma_parse_lines_apply(lines);
    lemma_apply_lines_append(Seq::empty(), head, tail);
    lemma_skipped_lines(Seq::empty(), head);
    assert(Seq::<MediaDescriptionView>::empty() + mds =~= mds);
}

} // verus!
