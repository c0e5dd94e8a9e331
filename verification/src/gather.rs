//! The asset resolution pipeline. One depth-first traversal of a render
//! payload visits every node exactly once and collects each image-bearing
//! node's asset reference; the references are resolved outside this core
//! (bundled assets through the host RPC client, remote locators by a fetch),
//! and the outcomes are folded back per node: every success and every failure
//! is reported, keyed by widget id, and one node's failure never aborts the
//! walk nor fails the others.

use vstd::prelude::*;
use vstd::string::StringExecFns;

use crate::model::has_prop;
use crate::model::prop_first_idx;
use crate::model::NodeContent;
use crate::model::PropertyValue;
use crate::model::UiWidgetId;
use crate::payload::RenderPayload;

verus! {

/// An asset reference: a bundled-asset identifier, or a remote locator.
pub enum ImageSource {
    ImageSourceAsset { asset: String },
    ImageSourceUrl { url: String },
}

/// The aggregate result of one pipeline run: resolved bytes and isolated
/// failures, each keyed by the widget id they belong to.
pub struct GatherOutcome {
    pub resolved: Vec<(UiWidgetId, Vec<u8>)>,
    pub failed: Vec<(UiWidgetId, String)>,
}

/// The asset reference a node carries, if any: a text property named
/// "sourceAsset" names a bundled asset, a text property named "sourceUrl" a
/// remote locator; a bundled reference wins when both are present.
pub open spec fn image_source_of(content: NodeContent) -> Option<ImageSource> {
    if !content.is_element() {
        None
    } else {
        let props = content.spec_properties();
        if has_prop(props, "sourceAsset"@) && props[prop_first_idx(props, "sourceAsset"@)].value
            is Text {
            Some(
                ImageSource::ImageSourceAsset {
                    asset: props[prop_first_idx(props, "sourceAsset"@)].value->Text_0,
                },
            )
        } else if has_prop(props, "sourceUrl"@) && props[prop_first_idx(props, "sourceUrl"@)].value
            is Text {
            Some(
                ImageSource::ImageSourceUrl {
                    url: props[prop_first_idx(props, "sourceUrl"@)].value->Text_0,
                },
            )
        } else {
            None
        }
    }
}

/// The requests a payload gives rise to: one per image-bearing node, in
/// traversal order.
pub open spec fn image_requests_of(nodes: Seq<crate::payload::PayloadNode>) -> Seq<
    (UiWidgetId, ImageSource),
>
    decreases nodes.len(),
{
    if nodes.len() == 0 {
        Seq::empty()
    } else {
        let head = image_requests_of(nodes.drop_last());
        match image_source_of(nodes.last().content) {
            Some(src) => head.push((nodes.last().id, src)),
            None => head,
        }
    }
}

/// The number of successes among the outcomes.
pub open spec fn count_ok(outcomes: Seq<Result<Vec<u8>, String>>) -> int
    decreases outcomes.len(),
{
    if outcomes.len() == 0 {
        0
    } else {
        count_ok(outcomes.drop_last()) + (if outcomes.last() is Ok {
            1int
        } else {
            0int
        })
    }
}

/// There are never more successes than outcomes, and never fewer than none.
pub proof fn lemma_count_ok_bounds(outcomes: Seq<Result<Vec<u8>, String>>)
    ensures
        0 <= count_ok(outcomes) <= outcomes.len(),
    decreases outcomes.len(),
{
    if outcomes.len() > 0 {
        lemma_count_ok_bounds(outcomes.drop_last());
    }
}

/// Every position in the success partition is reached by exactly the
/// successes, in order: for each position there is a success whose preceding
/// successes number that position.
pub proof fn lemma_count_ok_surjective(outcomes: Seq<Result<Vec<u8>, String>>, a: int)
    requires
        0 <= a < count_ok(outcomes),
    ensures
        exists|k: int|
            0 <= k < outcomes.len() && (#[trigger] outcomes[k]) is Ok && count_ok(outcomes.take(k))
                == a,
    decreases outcomes.len(),
{
    lemma_count_ok_bounds(outcomes);
    let last = outcomes.len() - 1;
    assert(outcomes.take(last) =~= outcomes.drop_last());
    if outcomes.last() is Ok && count_ok(outcomes.drop_last()) == a {
        assert(outcomes[last] is Ok && count_ok(outcomes.take(last)) == a);
    } else {
        lemma_count_ok_bounds(outcomes.drop_last());
        lemma_count_ok_surjective(outcomes.drop_last(), a);
        let k = choose|k: int|
            0 <= k < outcomes.drop_last().len() && (#[trigger] outcomes.drop_last()[k]) is Ok
                && count_ok(outcomes.drop_last().take(k)) == a;
        assert(outcomes.drop_last().take(k) =~= outcomes.take(k));
        assert(outcomes[k] is Ok && count_ok(outcomes.take(k)) == a);
    }
}

/// Likewise for the failure partition.
pub proof fn lemma_count_err_surjective(outcomes: Seq<Result<Vec<u8>, String>>, b: int)
    requires
        0 <= b < outcomes.len() - count_ok(outcomes),
    ensures
        exists|k: int|
            0 <= k < outcomes.len() && (#[trigger] outcomes[k]) is Err && k - count_ok(
                outcomes.take(k),
            ) == b,
    decreases outcomes.len(),
{
    lemma_count_ok_bounds(outcomes);
    let last = outcomes.len() - 1;
    assert(outcomes.take(last) =~= outcomes.drop_last());
    if outcomes.last() is Err && last - count_ok(outcomes.drop_last()) == b {
        assert(outcomes[last] is Err && last - count_ok(outcomes.take(last)) == b);
    } else {
        lemma_count_ok_bounds(outcomes.drop_last());
        lemma_count_err_surjective(outcomes.drop_last(), b);
        let k = choose|k: int|
            0 <= k < outcomes.drop_last().len() && (#[trigger] outcomes.drop_last()[k]) is Err && k
                - count_ok(outcomes.drop_last().take(k)) == b;
        assert(outcomes.drop_last().take(k) =~= outcomes.take(k));
        assert(outcomes[k] is Err && k - count_ok(outcomes.take(k)) == b);
    }
}

/// On a payload whose node ids are pairwise distinct — as every structurally
/// valid payload's are — the collected image requests carry pairwise distinct
/// widget ids: the walk visits every node exactly once.
pub proof fn lemma_requests_distinct(nodes: Seq<crate::payload::PayloadNode>)
    requires
        forall|j1: int, j2: int| 0 <= j1 < j2 < nodes.len() ==> nodes[j1].id != nodes[j2].id,
    ensures
        forall|a: int|
            0 <= a < image_requests_of(nodes).len() ==> exists|j: int|
                0 <= j < nodes.len() && (#[trigger] image_requests_of(nodes)[a]).0 == nodes[j].id,
        forall|a1: int, a2: int|
            0 <= a1 < a2 < image_requests_of(nodes).len() ==> image_requests_of(nodes)[a1].0
                != image_requests_of(nodes)[a2].0,
    decreases nodes.len(),
{
    if nodes.len() > 0 {
        let head = nodes.drop_last();
        lemma_requests_distinct(head);
        let hr = image_requests_of(head);
        let r = image_requests_of(nodes);
        assert forall|a: int|
            0 <= a < r.len() implies exists|j: int|
            0 <= j < nodes.len() && (#[trigger] r[a]).0 == nodes[j].id by {
            if a < hr.len() {
                let j = choose|j: int| 0 <= j < head.len() && (#[trigger] hr[a]).0 == head[j].id;
                assert(r[a] == hr[a]);
                assert(nodes[j].id == head[j].id);
            } else {
                assert(r[a].0 == nodes[nodes.len() - 1].id);
            }
        }
        assert forall|a1: int, a2: int| 0 <= a1 < a2 < r.len() implies r[a1].0 != r[a2].0 by {
            if a2 < hr.len() {
                assert(r[a1] == hr[a1] && r[a2] == hr[a2]);
            } else {
                assert(r[a2].0 == nodes[nodes.len() - 1].id);
                let j = choose|j: int| 0 <= j < head.len() && (#[trigger] hr[a1]).0 == head[j].id;
                assert(r[a1] == hr[a1]);
                assert(nodes[j].id != nodes[nodes.len() - 1].id);
            }
        }
    }
}

/// No node id receives two outcomes: with pairwise distinct request ids, the
/// resolved payloads carry distinct ids, the reported failures carry distinct
/// ids, and no id appears on both sides.
pub proof fn lemma_one_outcome_per_id(
    requests: Seq<(UiWidgetId, ImageSource)>,
    outcomes: Seq<Result<Vec<u8>, String>>,
    resolved: Seq<(UiWidgetId, Vec<u8>)>,
    failed: Seq<(UiWidgetId, String)>,
)
    requires
        requests.len() == outcomes.len(),
        forall|k1: int, k2: int|
            0 <= k1 < k2 < requests.len() ==> requests[k1].0 != requests[k2].0,
        resolved.len() == count_ok(outcomes),
        resolved.len() + failed.len() == requests.len(),
        forall|k: int|
            0 <= k < requests.len() && (#[trigger] outcomes[k]) is Ok ==> {
                let pos = count_ok(outcomes.take(k));
                0 <= pos < resolved.len() && resolved[pos].0 == requests[k].0
            },
        forall|k: int|
            0 <= k < requests.len() && (#[trigger] outcomes[k]) is Err ==> {
                let pos = k - count_ok(outcomes.take(k));
                0 <= pos < failed.len() && failed[pos].0 == requests[k].0
            },
    ensures
        forall|a1: int, a2: int| 0 <= a1 < a2 < resolved.len() ==> resolved[a1].0 != resolved[a2].0,
        forall|b1: int, b2: int| 0 <= b1 < b2 < failed.len() ==> failed[b1].0 != failed[b2].0,
        forall|a: int, b: int|
            0 <= a < resolved.len() && 0 <= b < failed.len() ==> resolved[a].0 != failed[b].0,
{
    assert forall|a1: int, a2: int|
        0 <= a1 < a2 < resolved.len() implies resolved[a1].0 != resolved[a2].0 by {
        lemma_count_ok_surjective(outcomes, a1);
        lemma_count_ok_surjective(outcomes, a2);
        let k1 = choose|k: int|
            0 <= k < outcomes.len() && (#[trigger] outcomes[k]) is Ok && count_ok(outcomes.take(k))
                == a1;
        let k2 = choose|k: int|
            0 <= k < outcomes.len() && (#[trigger] outcomes[k]) is Ok && count_ok(outcomes.take(k))
                == a2;
        assert(resolved[a1].0 == requests[k1].0);
        assert(resolved[a2].0 == requests[k2].0);
        assert(k1 != k2);
    }
    assert forall|b1: int, b2: int|
        0 <= b1 < b2 < failed.len() implies failed[b1].0 != failed[b2].0 by {
        lemma_count_err_surjective(outcomes, b1);
        lemma_count_err_surjective(outcomes, b2);
        let k1 = choose|k: int|
            0 <= k < outcomes.len() && (#[trigger] outcomes[k]) is Err && k - count_ok(
                outcomes.take(k),
            ) == b1;
        let k2 = choose|k: int|
            0 <= k < outcomes.len() && (#[trigger] outcomes[k]) is Err && k - count_ok(
                outcomes.take(k),
            ) == b2;
        assert(failed[b1].0 == requests[k1].0);
        assert(failed[b2].0 == requests[k2].0);
        assert(k1 != k2);
    }
    assert forall|a: int, b: int|
        0 <= a < resolved.len() && 0 <= b < failed.len() implies resolved[a].0 != failed[b].0 by {
        lemma_count_ok_bounds(outcomes);
        lemma_count_ok_surjective(outcomes, a);
        lemma_count_err_surjective(outcomes, b);
        let k1 = choose|k: int|
            0 <= k < outcomes.len() && (#[trigger] outcomes[k]) is Ok && count_ok(outcomes.take(k))
                == a;
        let k2 = choose|k: int|
            0 <= k < outcomes.len() && (#[trigger] outcomes[k]) is Err && k - count_ok(
                outcomes.take(k),
            ) == b;
        assert(resolved[a].0 == requests[k1].0);
        assert(failed[b].0 == requests[k2].0);
        assert(k1 != k2);
    }
}

/// The walk and the fold of one pipeline run.
pub struct ImageGatherer {
    pub image_sources: Vec<(UiWidgetId, ImageSource)>,
}

impl ImageGatherer {
    /// The per-node visitor step: records the node's asset reference, if it
    /// carries one.
    fn image(&mut self, widget_id: UiWidgetId, content: &NodeContent)
        ensures
            match image_source_of(*content) {
                Some(src) => final(self).image_sources@ == old(self).image_sources@.push(
                    (widget_id, src),
                ),
                None => final(self).image_sources@ == old(self).image_sources@,
            },
    {
        let found: Option<ImageSource> = match content {
            NodeContent::Text { .. } => None,
            NodeContent::Element { properties, .. } => {
                let asset_name = String::from_str("sourceAsset");
                let url_name = String::from_str("sourceUrl");
                proof {
                    reveal_strlit("sourceAsset");
                    reveal_strlit("sourceUrl");
                }
                let asset_hit: Option<ImageSource> = match crate::model::find_named(
                    properties,
                    &asset_name,
                ) {
                    Some(j) => {
                        proof {
                            crate::model::lemma_prop_first_idx(
                                properties@,
                                "sourceAsset"@,
                                j as int,
                            );
                        }
                        match &properties[j].value {
                            PropertyValue::Text(s) => Some(
                                ImageSource::ImageSourceAsset { asset: s.clone() },
                            ),
                            _ => None,
                        }
                    },
                    None => None,
                };
                match asset_hit {
                    Some(src) => Some(src),
                    None => {
                        match crate::model::find_named(properties, &url_name) {
                            Some(j) => {
                                proof {
                                    crate::model::lemma_prop_first_idx(
                                        properties@,
                                        "sourceUrl"@,
                                        j as int,
                                    );
                                }
                                match &properties[j].value {
                                    PropertyValue::Text(s) => Some(
                                        ImageSource::ImageSourceUrl { url: s.clone() },
                                    ),
                                    _ => None,
                                }
                            },
                            None => None,
                        }
                    },
                }
            },
        };
        match found {
            Some(src) => {
                self.image_sources.push((widget_id, src));
            },
            None => {},
        }
    }

    /// Walks the payload once, in order, and collects one request per
    /// image-bearing node. The ids of the requests are ids of payload nodes,
    /// so on a structurally valid payload no id occurs twice.
    pub fn gather_image_requests(payload: &RenderPayload) -> (r: Vec<(UiWidgetId, ImageSource)>)
        ensures
            r@ == image_requests_of(payload.nodes@),
            forall|a: int|
                0 <= a < r@.len() ==> exists|j: int|
                    0 <= j < payload.nodes@.len() && (#[trigger] r@[a]).0 == payload.nodes@[j].id,
    {
        let mut gatherer = ImageGatherer { image_sources: Vec::new() };
        let n = payload.nodes.len();
        let mut i: usize = 0;
        while i < n
            invariant
                n == payload.nodes@.len(),
                i <= n,
                gatherer.image_sources@ == image_requests_of(payload.nodes@.take(i as int)),
                forall|a: int|
                    0 <= a < gatherer.image_sources@.len() ==> exists|j: int|
                        0 <= j < payload.nodes@.len() && (#[trigger] gatherer.image_sources@[a]).0
                            == payload.nodes@[j].id,
            decreases n - i,
        {
            gatherer.image(payload.nodes[i].id, &payload.nodes[i].content);
            proof {
                assert(payload.nodes@.take(i + 1).drop_last() =~= payload.nodes@.take(i as int));
                assert(payload.nodes@.take(i + 1).last() == payload.nodes@[i as int]);
            }
            i += 1;
        }
        proof {
            assert(payload.nodes@.take(n as int) =~= payload.nodes@);
        }
        gatherer.image_sources
    }

    /// Folds the per-request resolution outcomes back into the aggregate
    /// result. Resolution is fallible per node and isolated per node: with N
    /// requests of which M failed, exactly N−M byte payloads are returned and
    /// exactly M failures are reported, each under its own widget id, in
    /// order; no outcome is dropped and none aborts the rest.
    #[verifier::rlimit(100)]
    pub fn run_gatherer(
        requests: Vec<(UiWidgetId, ImageSource)>,
        outcomes: Vec<Result<Vec<u8>, String>>,
    ) -> (r: GatherOutcome)
        requires
            requests@.len() == outcomes@.len(),
        ensures
            r.resolved@.len() == count_ok(outcomes@),
            r.resolved@.len() + r.failed@.len() == requests@.len(),
            forall|k: int|
                0 <= k < requests@.len() && (#[trigger] outcomes@[k]) is Ok ==> {
                    let pos = count_ok(outcomes@.take(k));
                    0 <= pos < r.resolved@.len() && r.resolved@[pos].0 == requests@[k].0
                        && r.resolved@[pos].1 == outcomes@[k]->Ok_0
                },
            forall|k: int|
                0 <= k < requests@.len() && (#[trigger] outcomes@[k]) is Err ==> {
                    let pos = k - count_ok(outcomes@.take(k));
                    0 <= pos < r.failed@.len() && r.failed@[pos].0 == requests@[k].0
                        && r.failed@[pos].1 == outcomes@[k]->Err_0
                },
    {
        let mut resolved: Vec<(UiWidgetId, Vec<u8>)> = Vec::new();
        let mut failed: Vec<(UiWidgetId, String)> = Vec::new();
        let n = requests.len();
        let mut requests = requests;
        let mut outcomes = outcomes;
        let ghost greq = requests@;
        let ghost gout = outcomes@;
        let mut i: usize = 0;
        while i < n
            invariant
                n == greq.len(),
                n == gout.len(),
                i <= n,
                requests@ == greq.skip(i as int),
                outcomes@ == gout.skip(i as int),
                resolved@.len() == count_ok(gout.take(i as int)),
                resolved@.len() + failed@.len() == i,
                forall|k: int|
                    0 <= k < i && (#[trigger] gout[k]) is Ok ==> {
                        let pos = count_ok(gout.take(k));
                        0 <= pos < resolved@.len() && resolved@[pos].0 == greq[k].0
                            && resolved@[pos].1 == gout[k]->Ok_0
                    },
                forall|k: int|
                    0 <= k < i && (#[trigger] gout[k]) is Err ==> {
                        let pos = k - count_ok(gout.take(k));
                        0 <= pos < failed@.len() && failed@[pos].0 == greq[k].0 && failed@[pos].1
                            == gout[k]->Err_0
                    },
            decreases n - i,
        {
            let (id, _src) = requests.remove(0);
            let outcome = outcomes.remove(0);
            proof {
                assert(greq.skip(i as int)[0] == greq[i as int]);
                assert(gout.skip(i as int)[0] == gout[i as int]);
                assert(requests@ =~= greq.skip(i + 1));
                assert(outcomes@ =~= gout.skip(i + 1));
                assert(gout.take(i + 1).drop_last() =~= gout.take(i as int));
                assert(gout.take(i + 1).last() == gout[i as int]);
                assert(gout.take(i as int) =~= gout.take(i + 1).drop_last());
            }
            match outcome {
                Ok(bytes) => {
                    resolved.push((id, bytes));
                },
                Err(message) => {
                    failed.push((id, message));
                },
            }
            proof {
                assert forall|k: int| 0 <= k < i + 1 && (#[trigger] gout[k]) is Ok implies {
                    let pos = count_ok(gout.take(k));
                    0 <= pos < resolved@.len() && resolved@[pos].0 == greq[k].0 && resolved@[pos].1
                        == gout[k]->Ok_0
                } by {
                    if k < i as int {
                        assert(count_ok(gout.take(k)) < count_ok(gout.take(i as int)) + 1);
                    }
                }
            }
            i += 1;
        }
        proof {
            assert(gout.take(n as int) =~= gout);
        }
        GatherOutcome { resolved, failed }
    }
}

} // verus!
