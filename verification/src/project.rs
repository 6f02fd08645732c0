//! Consumer-facing reshaping of decoded records: a plain description text
//! and a human-readable price summary for each record.

use vstd::prelude::*;
use vstd::string::StringExecFns;

use crate::feed::parse_xml;
use crate::feed::pipeline_spec;
use crate::DecodeError;
use crate::DecodeErrorV;
use crate::FinalPost;
use crate::FinalPostV;
use crate::JobPost;
use crate::JobPostV;

verus! {

/// The price summary of a record's mapping: the budget if only a budget is
/// given, the hourly range if only an hourly range is given, and `Unknown`
/// if it has neither or both.
pub open spec fn price_of(m: Map<Seq<char>, Seq<char>>) -> Seq<char> {
    if m.contains_key("Budget"@) && !m.contains_key("Hourly Range"@) {
        "Budget : "@ + m["Budget"@]
    } else if m.contains_key("Hourly Range"@) && !m.contains_key("Budget"@) {
        "Hourly Range : "@ + m["Hourly Range"@]
    } else {
        "Unknown"@
    }
}

/// The plain description of a record's mapping: its `details` value, or a
/// placeholder if it has none.
pub open spec fn detail_text_of(m: Map<Seq<char>, Seq<char>>) -> Seq<char> {
    if m.contains_key("details"@) {
        m["details"@]
    } else {
        "No Description"@
    }
}

/// The consumer-facing projection of one record.
pub open spec fn final_of(p: JobPostV) -> FinalPostV {
    FinalPostV {
        title: p.title,
        link: p.link,
        detail: detail_text_of(p.detail),
        price: price_of(p.detail),
    }
}

/// The projections of a record sequence, in order.
pub open spec fn final_seq(ps: Seq<JobPostV>) -> Seq<FinalPostV> {
    ps.map_values(|p: JobPostV| final_of(p))
}

/// The consumer-facing reshaping of one decoded record.
pub fn project_post(p: &JobPost) -> (r: FinalPost)
    requires
        p.wf(),
    ensures
        r@ == final_of(p@),
{
    let budget = p.detail.get("Budget");
    let hourly = p.detail.get("Hourly Range");
    let price: String = match (budget, hourly) {
        (Some(b), None) => String::from_str("Budget : ").concat(b.as_str()),
        (None, Some(h)) => String::from_str("Hourly Range : ").concat(h.as_str()),
        _ => String::from_str("Unknown"),
    };
    let detail: String = match p.detail.get("details") {
        Some(d) => d,
        None => String::from_str("No Description"),
    };
    FinalPost { title: p.title.clone(), link: p.link.clone(), detail, price }
}

/// Decodes a feed-envelope byte buffer and reshapes every record for the
/// consumer, keeping feed order; the first decode failure aborts the whole
/// call.
pub fn populate_data(byte_data: &[u8]) -> (r: Result<Vec<FinalPost>, DecodeError>)
    ensures
        r matches Ok(fs) ==> pipeline_spec(byte_data@) matches Ok(ps) && fs@.map_values(
            |f: FinalPost| f@,
        ) == final_seq(ps),
        r matches Err(e) ==> pipeline_spec(byte_data@) == Err::<Seq<JobPostV>, DecodeErrorV>(e@),
{
    let posts = match parse_xml(byte_data) {
        Ok(ps) => ps,
        Err(e) => {
            return Err(e);
        },
    };
    let ghost pv = posts@.map_values(|p: JobPost| p@);
    let mut out: Vec<FinalPost> = Vec::new();
    proof {
        assert(out@.map_values(|f: FinalPost| f@) =~= final_seq(pv.take(0)));
    }
    let mut i: usize = 0;
    while i < posts.len()
        invariant
            i <= posts.len(),
            pv == posts@.map_values(|p: JobPost| p@),
            pipeline_spec(byte_data@) == Ok::<Seq<JobPostV>, DecodeErrorV>(pv),
            forall|j: int| 0 <= j < posts@.len() ==> posts@[j].wf(),
            out@.map_values(|f: FinalPost| f@) == final_seq(pv.take(i as int)),
        decreases posts.len() - i,
    {
        let f = project_post(&posts[i]);
        let ghost prev = out@;
        out.push(f);
        proof {
            assert(pv[i as int] == posts@[i as int]@);
            assert(out@.map_values(|f: FinalPost| f@) =~= prev.map_values(
                |f: FinalPost| f@,
            ).push(final_of(pv[i as int])));
            assert(prev.map_values(|f: FinalPost| f@).push(final_of(pv[i as int])) =~= final_seq(
                pv.take(i as int + 1),
            ));
        }
        i = i + 1;
    }
    proof {
        assert(pv.take(posts@.len() as int) =~= pv);
    }
    Ok(out)
}

} // verus!

