//! Extraction of labeled fields from one entry's description markup, and
//! assembly of the final record.
//!
//! The description encodes fields as bold elements whose inner text is the
//! label and whose immediately following text node is the value. The markup
//! tree itself comes from an outside parser; everything done with the
//! resulting list of bold elements is verified here.

use vstd::prelude::*;

use crate::field_map::FieldMap;
use crate::text::link_prefix;
use crate::text::normalize_value;
use crate::text::normalized_value;
use crate::text::slug_category;
use crate::text::slug_of;
use crate::text::str_eq;
use crate::text::trim_link;
use crate::DecodeError;
use crate::DecodeErrorV;
use crate::JobPost;
use crate::JobPostV;

verus! {

/// What stands right after a bold element in sibling order.
#[derive(Debug, PartialEq)]
pub enum Sibling {
    /// The bold element has no following sibling.
    Missing,
    /// The following sibling is not a text node.
    Other,
    /// The following sibling is this text.
    Text(String),
}

/// Mathematical model of a `Sibling`.
pub ghost enum SiblingV {
    Missing,
    Other,
    Text(Seq<char>),
}

impl View for Sibling {
    type V = SiblingV;

    open spec fn view(&self) -> SiblingV {
        match self {
            Sibling::Missing => SiblingV::Missing,
            Sibling::Other => SiblingV::Other,
            Sibling::Text(t) => SiblingV::Text(t@),
        }
    }
}

/// One bold element of a description: its inner text, and what follows it.
#[derive(Debug, PartialEq)]
pub struct BoldField {
    pub label: String,
    pub node: Sibling,
}

/// Mathematical model of a `BoldField`.
pub ghost struct BoldFieldV {
    pub label: Seq<char>,
    pub node: SiblingV,
}

impl View for BoldField {
    type V = BoldFieldV;

    open spec fn view(&self) -> BoldFieldV {
        BoldFieldV { label: self.label@, node: self.node@ }
    }
}

/// The bold elements that a markup parser finds in the given description,
/// in document order, each with its following sibling.
pub uninterp spec fn bold_fields_of(s: Seq<char>) -> Seq<BoldFieldV>;

/// Relies on scraper's `Html::parse_document` and `Html::select` (with the
/// selector for `b` elements), on `ElementRef::inner_html`, on ego-tree's
/// `NodeRef::next_sibling`, and on scraper's `Node::as_text`. Scraper's
/// `deterministic` feature is on, so element attributes keep insertion
/// order and serialization is order-preserving: the tree parsed from a
/// markup string, and with it the ordered list of its bold elements (each
/// with its serialized inner markup and its following sibling), depends on
/// the input characters alone.
#[verifier::external_body]
fn bold_fields(desc: &str) -> (r: Vec<BoldField>)
    ensures
        r@.map_values(|f: BoldField| f@) == bold_fields_of(desc@),
{
    let doc = scraper::Html::parse_document(desc);
    let sel = scraper::Selector::parse("b").unwrap();
    doc.select(&sel).map(|el| BoldField {
        label: el.inner_html(),
        node: match el.next_sibling() {
            None => Sibling::Missing,
            Some(n) => match n.value().as_text() {
                Some(t) => Sibling::Text(t.to_string()),
                None => Sibling::Other,
            },
        },
    }).collect()
}

/// The mapping that the bold fields `fs` yield, starting from `acc`: the
/// `Posted On` field is skipped, every other field needs a text sibling,
/// values are normalized, and a repeated label keeps the later value.
pub open spec fn extract_rec(
    fs: Seq<BoldFieldV>,
    acc: Map<Seq<char>, Seq<char>>,
) -> Result<Map<Seq<char>, Seq<char>>, DecodeErrorV>
    decreases fs.len(),
{
    if fs.len() == 0 {
        Ok(acc)
    } else {
        let f = fs[0];
        if f.label == "Posted On"@ {
            extract_rec(fs.drop_first(), acc)
        } else {
            match f.node {
                SiblingV::Missing => Err(DecodeErrorV::MissingValue(f.label)),
                SiblingV::Other => Err(DecodeErrorV::NonTextValue(f.label)),
                SiblingV::Text(t) => extract_rec(
                    fs.drop_first(),
                    acc.insert(f.label, normalized_value(t)),
                ),
            }
        }
    }
}

/// The complete mapping extracted from the bold fields `fs`, or the first
/// error they raise.
pub open spec fn extract_spec(fs: Seq<BoldFieldV>) -> Result<
    Map<Seq<char>, Seq<char>>,
    DecodeErrorV,
> {
    extract_rec(fs, Map::empty())
}

/// The label-to-value mapping of one description markup string.
///
/// Fails with `MissingValue` on a bold label with no following sibling and
/// with `NonTextValue` on one whose following sibling is not text; either
/// error aborts the whole extraction.
pub fn get_detail(description: &str) -> (r: Result<FieldMap, DecodeError>)
    ensures
        r matches Ok(m) ==> m.wf() && extract_spec(bold_fields_of(description@))
            == Ok::<Map<Seq<char>, Seq<char>>, DecodeErrorV>(m@),
        r matches Err(e) ==> extract_spec(bold_fields_of(description@)) == Err::<
            Map<Seq<char>, Seq<char>>,
            DecodeErrorV,
        >(e@),
{
    let fields = bold_fields(description);
    let ghost fv = bold_fields_of(description@);
    let mut m = FieldMap::new();
    proof {
        assert(fv.skip(0) =~= fv);
    }
    let mut i: usize = 0;
    while i < fields.len()
        invariant
            i <= fields.len(),
            fv == bold_fields_of(description@),
            fields@.map_values(|f: BoldField| f@) == fv,
            m.wf(),
            extract_rec(fv.skip(i as int), m@) == extract_spec(fv),
        decreases fields.len() - i,
    {
        proof {
            assert(fv.len() == fields@.len());
            assert(fv[i as int] == fields@[i as int]@);
            assert(fv.skip(i as int).len() == fv.len() - i);
            assert(fv.skip(i as int)[0] == fv[i as int]);
            assert(fv.skip(i as int).drop_first() =~= fv.skip(i as int + 1));
        }
        let f = &fields[i];
        if str_eq(f.label.as_str(), "Posted On") {
            // Posting time comes from the envelope metadata, not from here.
        } else {
            match &f.node {
                Sibling::Missing => {
                    proof {
                        assert(extract_rec(fv.skip(i as int), m@) == Err::<
                            Map<Seq<char>, Seq<char>>,
                            DecodeErrorV,
                        >(DecodeErrorV::MissingValue(fv[i as int].label)));
                    }
                    return Err(DecodeError::MissingValue(f.label.clone()));
                },
                Sibling::Other => {
                    proof {
                        assert(extract_rec(fv.skip(i as int), m@) == Err::<
                            Map<Seq<char>, Seq<char>>,
                            DecodeErrorV,
                        >(DecodeErrorV::NonTextValue(fv[i as int].label)));
                    }
                    return Err(DecodeError::NonTextValue(f.label.clone()));
                },
                Sibling::Text(t) => {
                    let val = normalize_value(t.as_str());
                    m.insert(f.label.clone(), val);
                },
            }
        }
        i = i + 1;
    }
    proof {
        assert(fv.skip(fields@.len() as int) =~= Seq::<BoldFieldV>::empty());
    }
    Ok(m)
}

/// The record built from one raw entry: the link is cut before its query
/// suffix, the fields are extracted from the description, and the category
/// slug is derived; a missing or empty `Category` value fails the record.
pub open spec fn record_spec(
    posted: Seq<char>,
    ts: int,
    title: Seq<char>,
    link: Seq<char>,
    desc: Seq<char>,
) -> Result<JobPostV, DecodeErrorV> {
    match extract_spec(bold_fields_of(desc)) {
        Err(e) => Err(e),
        Ok(m) => if m.contains_key("Category"@) && m["Category"@].len() > 0 {
            Ok(
                JobPostV {
                    title: title,
                    link: link_prefix(link),
                    category: slug_of(m["Category"@]),
                    detail: m,
                    posted_on: posted,
                    posted_timestamp: ts,
                },
            )
        } else {
            Err(DecodeErrorV::MissingCategory)
        },
    }
}

/// A description whose fields extract cleanly but yield no `Category`
/// label fails the whole record with `MissingCategory`.
pub proof fn lemma_missing_category_fails(
    posted: Seq<char>,
    ts: int,
    title: Seq<char>,
    link: Seq<char>,
    desc: Seq<char>,
    m: Map<Seq<char>, Seq<char>>,
)
    requires
        extract_spec(bold_fields_of(desc)) == Ok::<Map<Seq<char>, Seq<char>>, DecodeErrorV>(m),
        !m.contains_key("Category"@),
    ensures
        record_spec(posted, ts, title, link, desc) == Err::<JobPostV, DecodeErrorV>(
            DecodeErrorV::MissingCategory,
        ),
{
}

/// A record that is built carries, as its category, the slug of the
/// mapping's non-empty `Category` value: its lowercase form with every
/// space turned into an underscore.
pub proof fn lemma_category_slugged(
    posted: Seq<char>,
    ts: int,
    title: Seq<char>,
    link: Seq<char>,
    desc: Seq<char>,
    m: Map<Seq<char>, Seq<char>>,
)
    requires
        extract_spec(bold_fields_of(desc)) == Ok::<Map<Seq<char>, Seq<char>>, DecodeErrorV>(m),
        m.contains_key("Category"@),
        m["Category"@].len() > 0,
    ensures
        record_spec(posted, ts, title, link, desc) matches Ok(p) && p.category == slug_of(
            m["Category"@],
        ),
{
}

/// A label that no field carries stays exactly as the accumulator had it.
proof fn lemma_extract_unseen(
    fs: Seq<BoldFieldV>,
    acc: Map<Seq<char>, Seq<char>>,
    m: Map<Seq<char>, Seq<char>>,
    l: Seq<char>,
)
    requires
        extract_rec(fs, acc) == Ok::<Map<Seq<char>, Seq<char>>, DecodeErrorV>(m),
        forall|k: int| 0 <= k < fs.len() ==> (#[trigger] fs[k]).label != l,
    ensures
        m.contains_key(l) == acc.contains_key(l),
        acc.contains_key(l) ==> m[l] == acc[l],
    decreases fs.len(),
{
    if fs.len() > 0 {
        let f = fs[0];
        assert(forall|k: int|
            0 <= k < fs.len() - 1 ==> (#[trigger] fs.drop_first()[k]).label == fs[k + 1].label);
        if f.label == "Posted On"@ {
            lemma_extract_unseen(fs.drop_first(), acc, m, l);
        } else {
            match f.node {
                SiblingV::Missing => {
                    assert(false);
                },
                SiblingV::Other => {
                    assert(false);
                },
                SiblingV::Text(t) => {
                    lemma_extract_unseen(
                        fs.drop_first(),
                        acc.insert(f.label, normalized_value(t)),
                        m,
                        l,
                    );
                },
            }
        }
    }
}

/// The value that a successful extraction keeps for an eligible label is
/// the normalized text of the label's last occurrence.
proof fn lemma_extract_last(
    fs: Seq<BoldFieldV>,
    acc: Map<Seq<char>, Seq<char>>,
    m: Map<Seq<char>, Seq<char>>,
    j: int,
)
    requires
        extract_rec(fs, acc) == Ok::<Map<Seq<char>, Seq<char>>, DecodeErrorV>(m),
        0 <= j < fs.len(),
        fs[j].label != "Posted On"@,
        forall|k: int| j < k < fs.len() ==> (#[trigger] fs[k]).label != fs[j].label,
    ensures
        fs[j].node is Text,
        m.contains_key(fs[j].label),
        m[fs[j].label] == normalized_value(fs[j].node->Text_0),
    decreases fs.len(),
{
    let f = fs[0];
    assert(forall|k: int|
        0 <= k < fs.len() - 1 ==> #[trigger] fs.drop_first()[k] == fs[k + 1]);
    if f.label == "Posted On"@ {
        lemma_extract_last(fs.drop_first(), acc, m, j - 1);
    } else {
        match f.node {
            SiblingV::Missing => {
                assert(false);
            },
            SiblingV::Other => {
                assert(false);
            },
            SiblingV::Text(t) => {
                let acc2 = acc.insert(f.label, normalized_value(t));
                if j == 0 {
                    lemma_extract_unseen(fs.drop_first(), acc2, m, f.label);
                } else {
                    lemma_extract_last(fs.drop_first(), acc2, m, j - 1);
                }
            },
        }
    }
}

/// When a label occurs more than once among the extracted fields, the
/// completed mapping keeps only the value of the later occurrence: the
/// last eligible occurrence of any label decides its value.
pub proof fn lemma_last_occurrence_wins(fs: Seq<BoldFieldV>, m: Map<Seq<char>, Seq<char>>, j: int)
    requires
        extract_spec(fs) == Ok::<Map<Seq<char>, Seq<char>>, DecodeErrorV>(m),
        0 <= j < fs.len(),
        fs[j].label != "Posted On"@,
        forall|k: int| j < k < fs.len() ==> (#[trigger] fs[k]).label != fs[j].label,
    ensures
        fs[j].node is Text,
        m.contains_key(fs[j].label),
        m[fs[j].label] == normalized_value(fs[j].node->Text_0),
{
    lemma_extract_last(fs, Map::empty(), m, j);
}

/// Combines one raw entry, its extracted mapping and its normalized
/// timestamp into the final record; see `record_spec` for exactly what is
/// returned, and when `MissingCategory` is instead.
pub fn mapped_detail(
    posted: String,
    timestamp: i64,
    title_raw: String,
    link_raw: String,
    desc: String,
) -> (r: Result<JobPost, DecodeError>)
    ensures
        r matches Ok(p) ==> p.wf() && p@.category.len() > 0 && record_spec(
            posted@,
            timestamp as int,
            title_raw@,
            link_raw@,
            desc@,
        ) == Ok::<JobPostV, DecodeErrorV>(p@),
        r matches Err(e) ==> record_spec(posted@, timestamp as int, title_raw@, link_raw@, desc@)
            == Err::<JobPostV, DecodeErrorV>(e@),
{
    let link = trim_link(link_raw.as_str());
    let details = match get_detail(desc.as_str()) {
        Ok(m) => m,
        Err(e) => {
            return Err(e);
        },
    };
    let category_val = match details.get("Category") {
        Some(v) => v,
        None => {
            return Err(DecodeError::MissingCategory);
        },
    };
    if category_val.as_str().is_empty() {
        return Err(DecodeError::MissingCategory);
    }
    let category = slug_category(category_val.as_str());
    Ok(
        JobPost {
            title: title_raw,
            link,
            category,
            detail: details,
            posted_on: posted,
            posted_timestamp: timestamp,
        },
    )
}

} // verus!
