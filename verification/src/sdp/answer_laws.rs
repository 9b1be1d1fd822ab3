//! What an answer keeps of the local description: laws over the answer
//! that `SessionDescriptionProtocol::create_answer` builds.
use crate::sdp::attribute::AttributeView;
use crate::sdp::media_description::MediaDescriptionView;
use crate::sdp::session_description::{answer_attributes, answer_md, answer_mds, count_encoding, first_match};
use vstd::prelude::*;

verus! {

/// The attributes of a section that are not `rtpmap`s, in order.
pub open spec fn other_attributes(attrs: Seq<AttributeView>) -> Seq<AttributeView>
    decreases attrs.len(),
{
    if attrs.len() == 0 {
        Seq::empty()
    } else {
        other_attributes(attrs.drop_last()) + if attrs.last() is RTPMap {
            Seq::empty()
        } else {
            seq![attrs.last()]
        }
    }
}

proof fn lemma_other_attributes_append(a: Seq<AttributeView>, b: Seq<AttributeView>)
    ensures
        other_attributes(a + b) == other_attributes(a) + other_attributes(b),
    decreases b.len(),
{
    if b.len() == 0 {
        assert(a + b =~= a);
        assert(other_attributes(a) + other_attributes(b) =~= other_attributes(a));
    } else {
        lemma_other_attributes_append(a, b.drop_last());
        assert((a + b).drop_last() =~= a + b.drop_last());
        assert((a + b).last() == b.last());
        assert(other_attributes(a + b) =~= other_attributes(a) + other_attributes(b));
    }
}

proof fn lemma_other_attributes_of_rtpmaps(attrs: Seq<AttributeView>)
    requires
        forall|i: int| 0 <= i < attrs.len() ==> (#[trigger] attrs[i]) is RTPMap,
    ensures
        other_attributes(attrs) == Seq::<AttributeView>::empty(),
    decreases attrs.len(),
{
    if attrs.len() > 0 {
        let pre = attrs.drop_last();
        assert forall|i: int| 0 <= i < pre.len() implies (#[trigger] pre[i]) is RTPMap by {
            assert(pre[i] == attrs[i]);
        }
        lemma_other_attributes_of_rtpmaps(pre);
        assert(attrs[attrs.len() - 1] is RTPMap);
    }
}

/// An answer section keeps every attribute of its local section that is
/// not an `rtpmap` (candidates, fingerprint, setup role), all of them, in
/// their order; and every `rtpmap` it holds is one of the local section's,
/// for an encoding that the offered section also maps.
pub proof fn lemma_answer_keeps_other_attributes(
    local: Seq<AttributeView>,
    offer: Seq<AttributeView>,
)
    ensures
        other_attributes(answer_attributes(local, offer)) == other_attributes(local),
        forall|k: int|
            0 <= k < answer_attributes(local, offer).len() ==> (#[trigger] answer_attributes(
                local,
                offer,
            )[k] matches AttributeView::RTPMap(_, n, _, _) ==> local.contains(
                answer_attributes(local, offer)[k],
            ) && count_encoding(offer, n) > 0),
    decreases local.len(),
{
    if local.len() > 0 {
        let pre = local.drop_last();
        let last = local.last();
        lemma_answer_keeps_other_attributes(pre, offer);
        let b = answer_attributes(pre, offer);
        let x = match last {
            AttributeView::RTPMap(_, n, _, _) => Seq::new(count_encoding(offer, n), |i: int| last),
            a => seq![a],
        };
        assert(answer_attributes(local, offer) == b + x);
        lemma_other_attributes_append(b, x);
        if last is RTPMap {
            assert forall|i: int| 0 <= i < x.len() implies (#[trigger] x[i]) is RTPMap by {}
            lemma_other_attributes_of_rtpmaps(x);
            assert(other_attributes(b) + other_attributes(x) =~= other_attributes(b));
        } else {
            assert(x.drop_last() =~= Seq::<AttributeView>::empty());
            assert(x.last() == last);
            assert(other_attributes(x.drop_last()) =~= Seq::<AttributeView>::empty());
            assert(other_attributes(x) =~= seq![last]);
        }
        let a = answer_attributes(local, offer);
        assert forall|k: int| 0 <= k < a.len() implies (#[trigger] a[k] matches AttributeView::RTPMap(
            _,
            n,
            _,
            _,
        ) ==> local.contains(a[k]) && count_encoding(offer, n) > 0) by {
            if k < b.len() {
                assert(a[k] == b[k]);
                if a[k] is RTPMap {
                    let j = choose|j: int| 0 <= j < pre.len() && pre[j] == b[k];
                    assert(local[j] == pre[j]);
                }
            } else {
                assert(a[k] == x[k - b.len()]);
                assert(local[local.len() - 1] == last);
            }
        }
    }
}

/// Whether an answer section comes from the local section `local`, which
/// some offered section matches by media type and protocol: it has the
/// local section's media type and protocol and keeps all its attributes
/// that are not `rtpmap`s, in order.
pub open spec fn answers_local_section(
    ans: MediaDescriptionView,
    local: MediaDescriptionView,
    offer: Seq<MediaDescriptionView>,
) -> bool {
    &&& ans.media_type == local.media_type
    &&& ans.protocol == local.protocol
    &&& other_attributes(ans.attributes) == other_attributes(local.attributes)
    &&& exists|j: int|
        0 <= j < offer.len() && (#[trigger] offer[j]).media_type == local.media_type
            && offer[j].protocol == local.protocol
}

/// Every section of an answer comes from a local section that an offered
/// section matches by media type and protocol, and keeps that local
/// section's candidates, fingerprint and setup role.
pub proof fn lemma_answer_sections_keep_local_attributes(
    local: Seq<MediaDescriptionView>,
    offer: Seq<MediaDescriptionView>,
)
    ensures
        forall|k: int|
            0 <= k < answer_mds(local, offer).len() ==> exists|i: int|
                0 <= i < local.len() && answers_local_section(
                    #[trigger] answer_mds(local, offer)[k],
                    #[trigger] local[i],
                    offer,
                ),
    decreases local.len(),
{
    if local.len() > 0 {
        let pre = local.drop_last();
        let last = local.last();
        lemma_answer_sections_keep_local_attributes(pre, offer);
        let b = answer_mds(pre, offer);
        let a = answer_mds(local, offer);
        assert forall|k: int| 0 <= k < a.len() implies exists|i: int|
            0 <= i < local.len() && answers_local_section(#[trigger] a[k], #[trigger] local[i], offer) by {
            if k < b.len() {
                assert(a[k] == b[k]);
                let i = choose|i: int|
                    0 <= i < pre.len() && answers_local_section(#[trigger] b[k], #[trigger] pre[i], offer);
                assert(local[i] == pre[i]);
            } else {
                assert(first_match(offer, last) is Some);
                let m = first_match(offer, last).unwrap();
                assert(a[k] == answer_md(last, offer[m]));
                lemma_answer_keeps_other_attributes(last.attributes, offer[m].attributes);
                let i = local.len() - 1;
                assert(local[i] == last);
                assert(answers_local_section(a[k], local[i], offer));
            }
        }
    }
}


} // verus!
