//! An attribute written as an SDP line reads back as the same attribute.
use crate::ice::{candidate_type_name, candidate_type_of, CandidateType, CandidateView};
use crate::number::{dec, hex2, lemma_dec_plain, lemma_parse_dec, lemma_parse_hex2, is_digit, is_hex_digit};
use crate::sdp::attribute::{
    ascii_lowercase, attribute_text, hex_text, parse_attribute, parse_candidate_values,
    parse_fingerprint_values, parse_hash, parse_rtpmap_values, parse_setup_role,
    parse_setup_values, setup_role_name, AttributeView, DtlsSetupRole, FingerprintView,
};
use crate::text::{
    is_ws, join, join_ws, lacks, lemma_find_char_concat, lemma_join_lacks, lemma_join_last,
    lemma_split_by_join, lemma_split_ws_join, lemma_trim_no_ws, no_ws, split_by, split_once,
    split_ws, trim,
};
use vstd::prelude::*;

verus! {

/// A non-empty text without whitespace: one token of an SDP line.
pub open spec fn plain_token(s: Seq<char>) -> bool {
    s.len() > 0 && no_ws(s)
}

/// Whether an attribute's line reads back as the attribute: the texts it
/// holds must be single tokens (an encoding name and its parameters also
/// without `/`), and a fingerprint must hold at least one byte.
pub open spec fn renders_faithfully(a: AttributeView) -> bool {
    match a {
        AttributeView::Candidate(c) => plain_token(c.foundation) && plain_token(c.transport)
            && plain_token(c.address),
        AttributeView::RTPMap(_, name, _, params) => plain_token(name) && lacks(name, '/')
            && match params {
            Some(p) => no_ws(p) && lacks(p, '/'),
            None => true,
        },
        AttributeView::Fingerprint(fp) => plain_token(fp.algorithm) && fp.bytes.len() > 0,
        AttributeView::Setup(_) => true,
    }
}

/// Joining one more piece adds a separator and the piece.
proof fn lemma_join_push(pieces: Seq<Seq<char>>, p: Seq<char>, sep: char)
    requires
        pieces.len() > 0,
    ensures
        join(pieces.push(p), sep) == join(pieces, sep).push(sep) + p,
{
    assert(pieces.push(p).drop_last() =~= pieces);
}

/// A decimal text is a token without `/` or `:`.
proof fn lemma_dec_token(n: nat)
    ensures
        plain_token(dec(n)),
        lacks(dec(n), '/'),
        lacks(dec(n), ':'),
{
    lemma_dec_plain(n);
    crate::number::lemma_dec_digits(n);
}

/// The line without its `a=` is the key, a colon and the value.
proof fn lemma_split_key(key: Seq<char>, value: Seq<char>)
    requires
        lacks(key, ':'),
    ensures
        split_once(key + seq![':'] + value, ':') == Some((key, value)),
{
    let s = key + seq![':'] + value;
    lemma_find_char_concat(key, ':', value);
    assert(s.subrange(0, key.len() as int) =~= key);
    assert(s.subrange(key.len() as int + 1, s.len() as int) =~= value);
}

/// The line of an attribute without its `a=`.
proof fn lemma_text_body(prefix: Seq<char>, key: Seq<char>, value: Seq<char>)
    requires
        prefix == seq!['a', '='] + key + seq![':'],
    ensures
        (prefix + value).subrange(2, (prefix + value).len() as int) == key + seq![':'] + value,
{
    assert((prefix + value).subrange(2, (prefix + value).len() as int) =~= key + seq![':']
        + value);
}

proof fn lemma_setup_roundtrip(r: DtlsSetupRole)
    ensures
        parse_setup_values(setup_role_name(r)) == Ok::<AttributeView, crate::sdp::error::SdpError>(
            AttributeView::Setup(r),
        ),
{
    reveal_strlit("actpass");
    reveal_strlit("active");
    reveal_strlit("passive");
    reveal_strlit("holdconn");
    let n = setup_role_name(r);
    assert(no_ws(n));
    lemma_trim_no_ws(n);
    assert(ascii_lowercase(n) =~= n);
}

proof fn lemma_candidate_type_roundtrip(t: CandidateType)
    ensures
        candidate_type_of(candidate_type_name(t)) == Some(t),
        plain_token(candidate_type_name(t)),
{
    reveal_strlit("host");
    reveal_strlit("srflx");
    reveal_strlit("prflx");
    reveal_strlit("relay");
    let n = candidate_type_name(t);
    assert(no_ws(n));
    match t {
        CandidateType::Host => {},
        CandidateType::ServerReflexive => {
            assert(n.len() != "host"@.len());
        },
        CandidateType::PeerReflexive => {
            assert(n.len() != "host"@.len());
            assert(n[0] != "srflx"@[0]);
        },
        CandidateType::Relay => {
            assert(n.len() != "host"@.len());
            assert(n[0] != "srflx"@[0]);
            assert(n[0] != "prflx"@[0]);
        },
    }
}

proof fn lemma_candidate_roundtrip(c: CandidateView)
    requires
        plain_token(c.foundation),
        plain_token(c.transport),
        plain_token(c.address),
    ensures
        parse_candidate_values(
            join_ws(
                seq![
                    c.foundation,
                    dec(c.component_id as nat),
                    c.transport,
                    dec(c.priority as nat),
                    c.address,
                    dec(c.port as nat),
                    "typ"@,
                    candidate_type_name(c.candidate_type),
                ],
            ),
        ) == Ok::<AttributeView, crate::sdp::error::SdpError>(AttributeView::Candidate(c)),
{
    reveal_strlit("typ");
    let tokens = seq![
        c.foundation,
        dec(c.component_id as nat),
        c.transport,
        dec(c.priority as nat),
        c.address,
        dec(c.port as nat),
        "typ"@,
        candidate_type_name(c.candidate_type),
    ];
    lemma_dec_token(c.component_id as nat);
    lemma_dec_token(c.priority as nat);
    lemma_dec_token(c.port as nat);
    lemma_candidate_type_roundtrip(c.candidate_type);
    assert(plain_token("typ"@));
    assert forall|i: int| 0 <= i < tokens.len() implies no_ws(#[trigger] tokens[i])
        && tokens[i].len() > 0 by {
        assert(plain_token(tokens[i]));
    }
    lemma_split_ws_join(tokens);
    lemma_parse_dec(c.priority as nat, 0xffff_ffff);
    lemma_parse_dec(c.port as nat, 65535);
    lemma_parse_dec(c.component_id as nat, 255);
}

/// The pieces of the encoding of an `rtpmap` value.
pub open spec fn rtpmap_pieces(name: Seq<char>, rate: u32, params: Option<Seq<char>>) -> Seq<Seq<char>> {
    match params {
        Some(p) => seq![name, dec(rate as nat), p],
        None => seq![name, dec(rate as nat)],
    }
}

/// The value of an `rtpmap` line: the format, a space, and the encoding
/// name, clock rate and parameters joined by `/`.
pub open spec fn rtpmap_value_text(fmt: u8, name: Seq<char>, rate: u32, params: Option<Seq<char>>) -> Seq<char> {
    join_ws(seq![dec(fmt as nat), join(rtpmap_pieces(name, rate, params), '/')])
}

proof fn lemma_rtpmap_roundtrip(fmt: u8, name: Seq<char>, rate: u32, params: Option<Seq<char>>)
    requires
        plain_token(name),
        lacks(name, '/'),
        params matches Some(p) ==> no_ws(p) && lacks(p, '/'),
    ensures
        parse_rtpmap_values(rtpmap_value_text(fmt, name, rate, params)) == Ok::<
            AttributeView,
            crate::sdp::error::SdpError,
        >(AttributeView::RTPMap(fmt, name, rate, params)),
{
    let pieces = rtpmap_pieces(name, rate, params);
    lemma_dec_token(fmt as nat);
    lemma_dec_token(rate as nat);
    assert forall|i: int| 0 <= i < pieces.len() implies lacks(#[trigger] pieces[i], '/') by {}
    lemma_split_by_join(pieces, '/');
    let tok = join(pieces, '/');
    lemma_join_push(seq![name], dec(rate as nat), '/');
    assert(seq![name].push(dec(rate as nat)) =~= seq![name, dec(rate as nat)]);
    assert(join(seq![name], '/') == name);
    if let Some(p) = params {
        lemma_join_push(seq![name, dec(rate as nat)], p, '/');
        assert(seq![name, dec(rate as nat)].push(p) =~= pieces);
    }
    assert(tok.len() > 0);
    let j = name.push('/') + dec(rate as nat);
    assert(join(seq![name, dec(rate as nat)], '/') == j);
    assert forall|i: int| 0 <= i < j.len() implies !is_ws(#[trigger] j[i]) by {
        if i < name.len() {
            assert(j[i] == name[i]);
        } else if i > name.len() {
            assert(j[i] == dec(rate as nat)[i - name.len() - 1]);
        }
    }
    match params {
        Some(p) => {
            assert(tok == j.push('/') + p);
            assert forall|i: int| 0 <= i < tok.len() implies !is_ws(#[trigger] tok[i]) by {
                if i < j.len() {
                    assert(tok[i] == j[i]);
                } else if i > j.len() {
                    assert(tok[i] == p[i - j.len() - 1]);
                }
            }
            assert(pieces.len() == 3 && pieces[2] == p);
        },
        None => {
            assert(tok == j);
        },
    }
    let tokens = seq![dec(fmt as nat), tok];
    assert forall|i: int| 0 <= i < tokens.len() implies no_ws(#[trigger] tokens[i])
        && tokens[i].len() > 0 by {}
    lemma_split_ws_join(tokens);
    lemma_parse_dec(fmt as nat, 255);
    lemma_parse_dec(rate as nat, 0xffff_ffff);
    let parts = split_ws(join_ws(tokens));
    assert(parts == tokens);
    assert(parts.len() == 2);
    assert(parts[0] == dec(fmt as nat));
    assert(parts[1] == tok);
    assert(split_by(parts[1], '/') == pieces);
    assert(pieces[0] == name);
    assert(pieces[1] == dec(rate as nat));
    assert((if pieces.len() > 2 {
        Some(pieces[2])
    } else {
        None
    }) == params);
    assert(crate::number::parse_unsigned(pieces[1], 10, 0xffff_ffff) == Some(rate as int));
    assert(crate::number::parse_unsigned(parts[0], 10, 255) == Some(fmt as int));
    assert(parse_rtpmap_values(join_ws(tokens)) == Ok::<AttributeView, crate::sdp::error::SdpError>(
        AttributeView::RTPMap(fmt, name, rate, params),
    ));
}

/// The pieces of the hexadecimal text of some bytes.
proof fn lemma_hex_pieces(bytes: Seq<u8>)
    requires
        bytes.len() > 0,
    ensures
        split_by(hex_text(bytes), ':') == Seq::new(bytes.len(), |i: int| hex2(bytes[i])),
        hex_text(bytes).len() > 0,
        no_ws(hex_text(bytes)),
{
    let pieces = Seq::new(bytes.len(), |i: int| hex2(bytes[i]));
    assert forall|i: int| 0 <= i < pieces.len() implies lacks(#[trigger] pieces[i], ':') by {
        lemma_parse_hex2(bytes[i]);
        assert forall|k: int| 0 <= k < pieces[i].len() implies #[trigger] pieces[i][k] != ':' by {
            assert(is_hex_digit(hex2(bytes[i])[k]));
        }
    }
    lemma_split_by_join(pieces, ':');
    lemma_join_plain(pieces, ':');
}

/// Joining non-empty pieces without whitespace, with a separator that is
/// not whitespace, gives a non-empty text without whitespace.
proof fn lemma_join_plain(pieces: Seq<Seq<char>>, sep: char)
    requires
        pieces.len() > 0,
        !is_ws(sep),
        forall|i: int| 0 <= i < pieces.len() ==> lacks(#[trigger] pieces[i], sep),
        forall|i: int|
            0 <= i < pieces.len() ==> (#[trigger] pieces[i]).len() > 0 && no_ws(pieces[i])
                || is_hex_piece(pieces[i]),
    ensures
        join(pieces, sep).len() > 0,
        no_ws(join(pieces, sep)),
    decreases pieces.len(),
{
    if pieces.len() > 1 {
        let init = pieces.drop_last();
        assert forall|i: int| 0 <= i < init.len() implies lacks(#[trigger] init[i], sep) by {
            assert(init[i] == pieces[i]);
        }
        assert forall|i: int|
            0 <= i < init.len() implies (#[trigger] init[i]).len() > 0 && no_ws(init[i])
                || is_hex_piece(init[i]) by {
            assert(init[i] == pieces[i]);
        }
        lemma_join_plain(init, sep);
        let last = pieces.last();
        assert(pieces[pieces.len() - 1] == last);
        if is_hex_piece(last) {
            hex_piece_plain(last);
        }
        let j = join(init, sep).push(sep) + last;
        assert forall|k: int| 0 <= k < j.len() implies !is_ws(#[trigger] j[k]) by {
            if k < join(init, sep).len() {
                assert(j[k] == join(init, sep)[k]);
            } else if k > join(init, sep).len() {
                assert(j[k] == last[k - join(init, sep).len() - 1]);
            }
        }
    } else {
        if is_hex_piece(pieces[0]) {
            hex_piece_plain(pieces[0]);
        }
    }
}

/// Two hexadecimal digits.
pub open spec fn is_hex_piece(s: Seq<char>) -> bool {
    s.len() == 2 && is_hex_digit(s[0]) && is_hex_digit(s[1])
}

proof fn hex_piece_plain(s: Seq<char>)
    requires
        is_hex_piece(s),
    ensures
        s.len() > 0,
        no_ws(s),
{
    assert forall|k: int| 0 <= k < s.len() implies !is_ws(#[trigger] s[k]) by {
        assert(k == 0 || k == 1);
    }
}

proof fn lemma_fingerprint_roundtrip(fp: FingerprintView)
    requires
        plain_token(fp.algorithm),
        fp.bytes.len() > 0,
    ensures
        parse_fingerprint_values(join_ws(seq![fp.algorithm, hex_text(fp.bytes)])) == Ok::<
            AttributeView,
            crate::sdp::error::SdpError,
        >(AttributeView::Fingerprint(fp)),
{
    let h = hex_text(fp.bytes);
    let pieces = Seq::new(fp.bytes.len(), |i: int| hex2(fp.bytes[i]));
    assert forall|i: int|
        0 <= i < pieces.len() implies (#[trigger] pieces[i]).len() > 0 && no_ws(pieces[i])
            || is_hex_piece(pieces[i]) by {
        lemma_parse_hex2(fp.bytes[i]);
        assert(is_hex_piece(pieces[i]));
    }
    lemma_hex_pieces(fp.bytes);
    let tokens = seq![fp.algorithm, h];
    assert forall|i: int| 0 <= i < tokens.len() implies no_ws(#[trigger] tokens[i])
        && tokens[i].len() > 0 by {}
    lemma_split_ws_join(tokens);
    lemma_trim_no_ws(fp.algorithm);
    lemma_trim_no_ws(h);
    assert forall|i: int| 0 <= i < pieces.len() implies crate::number::parse_unsigned(
        trim(#[trigger] pieces[i]),
        16,
        255,
    ) == Some(fp.bytes[i] as int) by {
        lemma_parse_hex2(fp.bytes[i]);
        assert(is_hex_piece(pieces[i]));
        hex_piece_plain(pieces[i]);
        lemma_trim_no_ws(pieces[i]);
    }
    let parsed = Seq::new(
        pieces.len(),
        |i: int| crate::number::parse_unsigned(trim(pieces[i]), 16, 255).unwrap() as u8,
    );
    assert(parsed =~= fp.bytes);
    assert(parse_hash(h) == Ok::<Seq<u8>, crate::sdp::error::SdpError>(fp.bytes));
}

/// Every attribute whose texts are single tokens reads back from its SDP
/// line: parsing the line without its leading `a=` gives the attribute.
pub proof fn lemma_attribute_text_roundtrip(a: AttributeView)
    requires
        renders_faithfully(a),
    ensures
        parse_attribute(attribute_text(a).subrange(2, attribute_text(a).len() as int)) == Ok::<
            AttributeView,
            crate::sdp::error::SdpError,
        >(a),
{
    match a {
        AttributeView::Candidate(c) => lemma_candidate_line_roundtrip(c),
        AttributeView::RTPMap(fmt, name, rate, params) => lemma_rtpmap_line_roundtrip(
            fmt,
            name,
            rate,
            params,
        ),
        AttributeView::Fingerprint(fp) => lemma_fingerprint_line_roundtrip(fp),
        AttributeView::Setup(r) => lemma_setup_line_roundtrip(r),
    }
}

proof fn lemma_candidate_line_roundtrip(c: CandidateView)
    requires
        renders_faithfully(AttributeView::Candidate(c)),
    ensures
        parse_attribute(
            attribute_text(AttributeView::Candidate(c)).subrange(
                2,
                attribute_text(AttributeView::Candidate(c)).len() as int,
            ),
        ) == Ok::<AttributeView, crate::sdp::error::SdpError>(AttributeView::Candidate(c)),
{
    reveal_strlit("candidate");
    reveal_strlit("a=candidate:");
    let key = "candidate"@;
    let prefix = "a=candidate:"@;
    assert(prefix =~= seq!['a', '='] + key + seq![':']);
    let value = join_ws(
        seq![
            c.foundation,
            dec(c.component_id as nat),
            c.transport,
            dec(c.priority as nat),
            c.address,
            dec(c.port as nat),
            "typ"@,
            candidate_type_name(c.candidate_type),
        ],
    );
    lemma_candidate_value_text(c);
    lemma_text_body(prefix, key, value);
    lemma_split_key(key, value);
    lemma_candidate_roundtrip(c);
}

proof fn lemma_rtpmap_line_roundtrip(fmt: u8, name: Seq<char>, rate: u32, params: Option<Seq<char>>)
    requires
        renders_faithfully(AttributeView::RTPMap(fmt, name, rate, params)),
    ensures
        parse_attribute(
            attribute_text(AttributeView::RTPMap(fmt, name, rate, params)).subrange(
                2,
                attribute_text(AttributeView::RTPMap(fmt, name, rate, params)).len() as int,
            ),
        ) == Ok::<AttributeView, crate::sdp::error::SdpError>(
            AttributeView::RTPMap(fmt, name, rate, params),
        ),
{
    reveal_strlit("candidate");
    reveal_strlit("rtpmap");
    reveal_strlit("a=rtpmap:");
    let key = "rtpmap"@;
    let prefix = "a=rtpmap:"@;
    assert(prefix =~= seq!['a', '='] + key + seq![':']);
    let value = rtpmap_value_text(fmt, name, rate, params);
    lemma_rtpmap_value_text(fmt, name, rate, params);
    lemma_text_body(prefix, key, value);
    lemma_split_key(key, value);
    assert(key.len() != "candidate"@.len());
    lemma_rtpmap_roundtrip(fmt, name, rate, params);
}

proof fn lemma_fingerprint_line_roundtrip(fp: FingerprintView)
    requires
        renders_faithfully(AttributeView::Fingerprint(fp)),
    ensures
        parse_attribute(
            attribute_text(AttributeView::Fingerprint(fp)).subrange(
                2,
                attribute_text(AttributeView::Fingerprint(fp)).len() as int,
            ),
        ) == Ok::<AttributeView, crate::sdp::error::SdpError>(AttributeView::Fingerprint(fp)),
{
    reveal_strlit("candidate");
    reveal_strlit("rtpmap");
    reveal_strlit("fingerprint");
    reveal_strlit("a=fingerprint:");
    reveal_strlit(" ");
    let key = "fingerprint"@;
    let prefix = "a=fingerprint:"@;
    assert(prefix =~= seq!['a', '='] + key + seq![':']);
    let h = hex_text(fp.bytes);
    let value = join_ws(seq![fp.algorithm, h]);
    lemma_join_push(seq![fp.algorithm], h, ' ');
    assert(seq![fp.algorithm].push(h) =~= seq![fp.algorithm, h]);
    assert(join(seq![fp.algorithm], ' ') == fp.algorithm);
    assert(attribute_text(AttributeView::Fingerprint(fp)) =~= prefix + value);
    lemma_text_body(prefix, key, value);
    lemma_split_key(key, value);
    assert(key.len() != "candidate"@.len());
    assert(key.len() != "rtpmap"@.len());
    lemma_fingerprint_roundtrip(fp);
}

proof fn lemma_setup_line_roundtrip(r: DtlsSetupRole)
    ensures
        parse_attribute(
            attribute_text(AttributeView::Setup(r)).subrange(
                2,
                attribute_text(AttributeView::Setup(r)).len() as int,
            ),
        ) == Ok::<AttributeView, crate::sdp::error::SdpError>(AttributeView::Setup(r)),
{
    reveal_strlit("candidate");
    reveal_strlit("rtpmap");
    reveal_strlit("fingerprint");
    reveal_strlit("setup");
    reveal_strlit("a=setup:");
    let key = "setup"@;
    let prefix = "a=setup:"@;
    assert(prefix =~= seq!['a', '='] + key + seq![':']);
    let value = setup_role_name(r);
    lemma_text_body(prefix, key, value);
    lemma_split_key(key, value);
    assert(key.len() != "candidate"@.len());
    assert(key.len() != "rtpmap"@.len());
    assert(key.len() != "fingerprint"@.len());
    lemma_setup_roundtrip(r);
}

/// The value of a candidate line is its eight tokens joined by spaces.
proof fn lemma_candidate_value_text(c: CandidateView)
    ensures
        "a=candidate:"@ + join_ws(
            seq![
                c.foundation,
                dec(c.component_id as nat),
                c.transport,
                dec(c.priority as nat),
                c.address,
                dec(c.port as nat),
                "typ"@,
                candidate_type_name(c.candidate_type),
            ],
        ) == attribute_text(AttributeView::Candidate(c)),
{
    reveal_strlit(" ");
    reveal_strlit(" typ ");
    reveal_strlit("typ");
    let p = "a=candidate:"@;
    let sp = " "@;
    let t0 = c.foundation;
    let t1 = dec(c.component_id as nat);
    let t2 = c.transport;
    let t3 = dec(c.priority as nat);
    let t4 = c.address;
    let t5 = dec(c.port as nat);
    let t6 = "typ"@;
    let t7 = candidate_type_name(c.candidate_type);
    let s1 = seq![t0];
    let s2 = seq![t0, t1];
    let s3 = seq![t0, t1, t2];
    let s4 = seq![t0, t1, t2, t3];
    let s5 = seq![t0, t1, t2, t3, t4];
    let s6 = seq![t0, t1, t2, t3, t4, t5];
    let s7 = seq![t0, t1, t2, t3, t4, t5, t6];
    let s8 = seq![t0, t1, t2, t3, t4, t5, t6, t7];
    assert(join(s1, ' ') == t0);
    lemma_join_push(s1, t1, ' ');
    assert(s1.push(t1) =~= s2);
    lemma_join_push(s2, t2, ' ');
    assert(s2.push(t2) =~= s3);
    lemma_join_push(s3, t3, ' ');
    assert(s3.push(t3) =~= s4);
    lemma_join_push(s4, t4, ' ');
    assert(s4.push(t4) =~= s5);
    lemma_join_push(s5, t5, ' ');
    assert(s5.push(t5) =~= s6);
    lemma_join_push(s6, t6, ' ');
    assert(s6.push(t6) =~= s7);
    lemma_join_push(s7, t7, ' ');
    assert(s7.push(t7) =~= s8);
    let j2 = join(s2, ' ');
    let j3 = join(s3, ' ');
    let j4 = join(s4, ' ');
    let j5 = join(s5, ' ');
    let j6 = join(s6, ' ');
    let j7 = join(s7, ' ');
    let j8 = join(s8, ' ');
    assert(p + j2 =~= p + t0 + sp + t1);
    assert(p + j3 =~= (p + j2) + sp + t2);
    assert(p + j4 =~= (p + j3) + sp + t3);
    assert(p + j5 =~= (p + j4) + sp + t4);
    assert(p + j6 =~= (p + j5) + sp + t5);
    assert(p + j7 =~= (p + j6) + sp + t6);
    assert(p + j8 =~= (p + j7) + sp + t7);
    assert((p + j6) + sp + t6 + sp =~= (p + j6) + " typ "@);
}

/// The value of an `rtpmap` line is what the line writes after the key.
proof fn lemma_rtpmap_value_text(fmt: u8, name: Seq<char>, rate: u32, params: Option<Seq<char>>)
    ensures
        "a=rtpmap:"@ + rtpmap_value_text(fmt, name, rate, params) == attribute_text(
            AttributeView::RTPMap(fmt, name, rate, params),
        ),
{
    reveal_strlit(" ");
    reveal_strlit("/");
    let r = dec(rate as nat);
    lemma_join_push(seq![name], r, '/');
    assert(seq![name].push(r) =~= seq![name, r]);
    assert(join(seq![name], '/') == name);
    if let Some(p) = params {
        lemma_join_push(seq![name, r], p, '/');
        assert(seq![name, r].push(p) =~= seq![name, r, p]);
    }
    let tok = join(rtpmap_pieces(name, rate, params), '/');
    lemma_join_push(seq![dec(fmt as nat)], tok, ' ');
    assert(seq![dec(fmt as nat)].push(tok) =~= seq![dec(fmt as nat), tok]);
    assert(join(seq![dec(fmt as nat)], ' ') == dec(fmt as nat));
    assert("a=rtpmap:"@ + rtpmap_value_text(fmt, name, rate, params) =~= attribute_text(
        AttributeView::RTPMap(fmt, name, rate, params),
    ));
}

/// A text without whitespace holds no line break.
proof fn lemma_no_ws_one_line(s: Seq<char>)
    requires
        no_ws(s),
    ensures
        lacks(s, '\n'),
{
    assert forall|i: int| 0 <= i < s.len() implies #[trigger] s[i] != '\n' by {
        assert(!is_ws(s[i]));
    }
}

/// A line made of an `a=...:` key and a value inherits the value's end.
proof fn lemma_line_parts(prefix: Seq<char>, value: Seq<char>)
    requires
        prefix.len() >= 2,
        prefix[0] == 'a',
        prefix[1] == '=',
        no_ws(prefix),
        lacks(value, '\n'),
        value.len() > 0,
        !is_ws(value.last()),
    ensures
        (prefix + value).len() >= 2,
        (prefix + value)[0] == 'a',
        (prefix + value)[1] == '=',
        lacks(prefix + value, '\n'),
        !is_ws((prefix + value).last()),
{
    lemma_no_ws_one_line(prefix);
    let s = prefix + value;
    assert forall|i: int| 0 <= i < s.len() implies #[trigger] s[i] != '\n' by {
        if i < prefix.len() {
            assert(s[i] == prefix[i]);
        } else {
            assert(s[i] == value[i - prefix.len()]);
        }
    }
    assert(s.last() == value.last());
}

/// The SDP line of an attribute that renders faithfully is a single line
/// that starts with `a=` and does not end in whitespace.
pub proof fn lemma_attribute_line(a: AttributeView)
    requires
        renders_faithfully(a),
    ensures
        attribute_text(a).len() >= 2,
        attribute_text(a)[0] == 'a',
        attribute_text(a)[1] == '=',
        lacks(attribute_text(a), '\n'),
        !is_ws(attribute_text(a).last()),
{
    match a {
        AttributeView::Candidate(c) => {
            reveal_strlit("a=candidate:");
            reveal_strlit("typ");
            let prefix = "a=candidate:"@;
            let tokens = seq![
                c.foundation,
                dec(c.component_id as nat),
                c.transport,
                dec(c.priority as nat),
                c.address,
                dec(c.port as nat),
                "typ"@,
                candidate_type_name(c.candidate_type),
            ];
            lemma_candidate_value_text(c);
            lemma_dec_token(c.component_id as nat);
            lemma_dec_token(c.priority as nat);
            lemma_dec_token(c.port as nat);
            lemma_candidate_type_roundtrip(c.candidate_type);
            assert(plain_token("typ"@));
            assert forall|i: int| 0 <= i < tokens.len() implies lacks(#[trigger] tokens[i], '\n') by {
                assert(plain_token(tokens[i]));
                lemma_no_ws_one_line(tokens[i]);
            }
            lemma_join_lacks(tokens, ' ', '\n');
            assert(tokens.last() == candidate_type_name(c.candidate_type));
            lemma_join_last(tokens, ' ');
            assert(tokens.last()[tokens.last().len() - 1] == tokens.last().last());
            assert(no_ws(prefix));
            lemma_line_parts(prefix, join_ws(tokens));
        },
        AttributeView::RTPMap(fmt, name, rate, params) => {
            reveal_strlit("a=rtpmap:");
            let prefix = "a=rtpmap:"@;
            lemma_rtpmap_value_text(fmt, name, rate, params);
            let r = dec(rate as nat);
            let f = dec(fmt as nat);
            lemma_dec_token(rate as nat);
            lemma_dec_token(fmt as nat);
            lemma_no_ws_one_line(name);
            lemma_no_ws_one_line(r);
            lemma_no_ws_one_line(f);
            let pieces = rtpmap_pieces(name, rate, params);
            if let Some(p) = params {
                lemma_no_ws_one_line(p);
            }
            assert forall|i: int| 0 <= i < pieces.len() implies lacks(#[trigger] pieces[i], '\n') by {
                if i == 2 {
                    assert(pieces[2] == params.unwrap());
                }
            }
            lemma_join_lacks(pieces, '/', '\n');
            let tok = join(pieces, '/');
            assert(join(seq![name], '/') == name);
            assert(seq![name, r].drop_last() =~= seq![name]);
            assert(join(seq![name, r], '/') == name.push('/') + r);
            assert(r[r.len() - 1] == r.last());
            assert(!is_ws(r.last()));
            match params {
                Some(p) => {
                    assert(pieces.drop_last() =~= seq![name, r]);
                    assert(tok == join(seq![name, r], '/').push('/') + p);
                    if p.len() > 0 {
                        assert(tok.last() == p.last());
                        assert(p[p.len() - 1] == p.last());
                    } else {
                        assert(tok.last() == '/');
                    }
                },
                None => {
                    assert(tok == name.push('/') + r);
                    assert(tok.last() == r.last());
                },
            }
            let toks = seq![f, tok];
            assert(toks.drop_last() =~= seq![f]);
            assert(join(seq![f], ' ') == f);
            assert(join_ws(toks) == f.push(' ') + tok);
            assert forall|i: int| 0 <= i < toks.len() implies lacks(#[trigger] toks[i], '\n') by {}
            lemma_join_lacks(toks, ' ', '\n');
            assert(join_ws(toks).last() == tok.last());
            assert(rtpmap_value_text(fmt, name, rate, params) == join_ws(toks));
            assert(no_ws(prefix));
            lemma_line_parts(prefix, join_ws(toks));
        },
        AttributeView::Fingerprint(fp) => {
            reveal_strlit("a=fingerprint:");
            reveal_strlit(" ");
            let prefix = "a=fingerprint:"@;
            let n = fp.bytes.len();
            let hexes = Seq::new(n, |i: int| hex2(fp.bytes[i]));
            let h = hex_text(fp.bytes);
            assert(h == join(hexes, ':'));
            assert forall|i: int| 0 <= i < hexes.len() implies lacks(#[trigger] hexes[i], '\n') by {
                lemma_parse_hex2(fp.bytes[i]);
                assert forall|j: int| 0 <= j < hexes[i].len() implies #[trigger] hexes[i][j]
                    != '\n' by {
                    assert(is_hex_digit(hex2(fp.bytes[i])[j]));
                }
            }
            lemma_join_lacks(hexes, ':', '\n');
            lemma_parse_hex2(fp.bytes[n - 1]);
            assert(hexes.last() == hex2(fp.bytes[n - 1]));
            assert(is_hex_digit(hexes.last()[1]));
            lemma_join_last(hexes, ':');
            lemma_no_ws_one_line(fp.algorithm);
            let value = join_ws(seq![fp.algorithm, h]);
            lemma_join_push(seq![fp.algorithm], h, ' ');
            assert(seq![fp.algorithm].push(h) =~= seq![fp.algorithm, h]);
            assert(join(seq![fp.algorithm], ' ') == fp.algorithm);
            assert(attribute_text(AttributeView::Fingerprint(fp)) =~= prefix + value);
            assert forall|i: int| 0 <= i < value.len() implies #[trigger] value[i] != '\n' by {
                if i < fp.algorithm.len() {
                    assert(value[i] == fp.algorithm[i]);
                } else if i > fp.algorithm.len() {
                    assert(value[i] == h[i - fp.algorithm.len() - 1]);
                }
            }
            assert(value.last() == h.last());
            assert(no_ws(prefix));
            lemma_line_parts(prefix, value);
        },
        AttributeView::Setup(r) => {
            reveal_strlit("a=setup:");
            reveal_strlit("actpass");
            reveal_strlit("active");
            reveal_strlit("passive");
            reveal_strlit("holdconn");
            let prefix = "a=setup:"@;
            let n = setup_role_name(r);
            assert(no_ws(n));
            assert(n.len() > 0);
            lemma_no_ws_one_line(n);
            assert(n[n.len() - 1] == n.last());
            assert(no_ws(prefix));
            lemma_line_parts(prefix, n);
        },
    }
}

} // verus!
