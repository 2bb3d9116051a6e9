//! Properties of the queries for similar and duplicate bugs, and of the
//! choice of similar bugs shown, for all inputs.
use vstd::prelude::*;
use crate::model::Bug;
use crate::query::{
    bug_address, bug_endpoint, duplicates_param_list, other_than, possible_duplicates_endpoint,
    similar_kept, similar_param_list, BMO_BASE,
};
use crate::text::decimal;

verus! {

/// The bugs shown as similar are the answers other than the bug itself, in
/// the order in which they came, cut to the first `limit` of them; so when no
/// more than `limit` answers are other bugs, every one of them is shown.
pub proof fn law_similar_first_others(bugs: Seq<Bug>, bug_id: u64, limit: u32)
    ensures
        ({
            let others = bugs.filter(|b: Bug| b.id != bug_id);
            let kept = similar_kept(bugs, bug_id, limit);
            &&& kept.len() == (if others.len() <= limit {
                others.len() as int
            } else {
                limit as int
            })
            &&& forall|i: int| 0 <= i < kept.len() ==> kept[i] == others[i]
            &&& others.len() <= limit ==> forall|i: int|
                0 <= i < bugs.len() && bugs[i].id != bug_id ==> kept.contains(#[trigger] bugs[i])
        }),
{
    let pred = |b: Bug| b.id != bug_id;
    assert(other_than(bug_id) =~= pred);
    let others = bugs.filter(pred);
    let kept = similar_kept(bugs, bug_id, limit);
    if others.len() <= limit {
        assert forall|i: int| 0 <= i < bugs.len() && bugs[i].id != bug_id implies kept.contains(
            #[trigger] bugs[i],
        ) by {
            bugs.lemma_filter_contains(pred, i);
        }
    }
}

/// The similar-bugs query sends the summary first, as given, then the limit
/// in decimal and the fields to return; the product comes last, and only when
/// there is one.
pub proof fn law_similar_params(summary: Seq<char>, product: Seq<char>, limit: u32)
    ensures
        ({
            let p = similar_param_list(summary, product, limit);
            &&& p.len() == (if product.len() > 0 {
                4int
            } else {
                3int
            })
            &&& p[0] == ("summary"@, summary)
            &&& p[1] == ("limit"@, decimal(limit as nat))
            &&& p[2] == (
                "include_fields"@,
                "id,summary,status,resolution,product,component,severity,priority,last_change_time,keywords"@,
            )
            &&& product.len() > 0 ==> p[3] == ("product"@, product)
        }),
{
}

/// The duplicates query asks for the fields to return, then for each
/// duplicate in the order given by its id in decimal, and ends with the limit.
pub proof fn law_duplicates_params(ids: Seq<u64>, limit: u32)
    ensures
        ({
            let p = duplicates_param_list(ids, limit);
            &&& p.len() == ids.len() + 2
            &&& p[0] == (
                "include_fields"@,
                "id,summary,status,resolution,product,component,severity,last_change_time"@,
            )
            &&& forall|i: int| 0 <= i < ids.len() ==> p[i + 1] == ("id"@, decimal(#[trigger] ids[i] as nat))
            &&& p[p.len() - 1] == ("limit"@, decimal(limit as nat))
        }),
{
    let p = duplicates_param_list(ids, limit);
    assert forall|i: int| 0 <= i < ids.len() implies p[i + 1] == ("id"@, decimal(#[trigger] ids[i] as nat)) by {
    }
}

/// Every request goes to the REST API of bugzilla.mozilla.org: bugs are
/// listed at `/rest/bug`, bug `id` is at `/rest/bug/<id>`, and possible
/// duplicates are found at `/rest/bug/possible_duplicates`.
pub proof fn law_addresses(id: u64)
    ensures
        bug_endpoint() == "https://bugzilla.mozilla.org/rest/bug"@,
        possible_duplicates_endpoint() == "https://bugzilla.mozilla.org/rest/bug/possible_duplicates"@,
        bug_address(id) == "https://bugzilla.mozilla.org/rest/bug/"@ + decimal(id as nat),
{
    reveal_strlit("https://bugzilla.mozilla.org/rest");
    reveal_strlit("/bug");
    reveal_strlit("/bug/");
    reveal_strlit("/bug/possible_duplicates");
    reveal_strlit("https://bugzilla.mozilla.org/rest/bug");
    reveal_strlit("https://bugzilla.mozilla.org/rest/bug/possible_duplicates");
    reveal_strlit("https://bugzilla.mozilla.org/rest/bug/");
    assert(BMO_BASE@ == "https://bugzilla.mozilla.org/rest"@);
    assert(bug_endpoint() =~= "https://bugzilla.mozilla.org/rest/bug"@);
    assert(possible_duplicates_endpoint()
        =~= "https://bugzilla.mozilla.org/rest/bug/possible_duplicates"@);
    assert(BMO_BASE@ + "/bug/"@ =~= "https://bugzilla.mozilla.org/rest/bug/"@);
}

} // verus!
