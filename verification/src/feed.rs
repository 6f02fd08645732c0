//! Feed-envelope decoding: raw entries out of the envelope bytes, publish
//! dates normalized to epoch seconds, and the per-entry records collected
//! in feed order.

use vstd::prelude::*;

use crate::detail::mapped_detail;
use crate::detail::record_spec;
use crate::DecodeError;
use crate::DecodeErrorV;
use crate::JobPost;
use crate::JobPostV;

verus! {

/// One entry of the feed envelope, every sub-field optional.
#[derive(Debug, PartialEq)]
pub struct RawEntry {
    pub title: Option<String>,
    pub link: Option<String>,
    pub pub_date: Option<String>,
    pub description: Option<String>,
}

/// Mathematical model of a `RawEntry`.
pub ghost struct RawEntryV {
    pub title: Option<Seq<char>>,
    pub link: Option<Seq<char>>,
    pub pub_date: Option<Seq<char>>,
    pub description: Option<Seq<char>>,
}

/// The view of one optional string.
pub open spec fn opt_view(o: Option<String>) -> Option<Seq<char>> {
    match o {
        Some(s) => Some(s@),
        None => None,
    }
}

impl View for RawEntry {
    type V = RawEntryV;

    open spec fn view(&self) -> RawEntryV {
        RawEntryV {
            title: opt_view(self.title),
            link: opt_view(self.link),
            pub_date: opt_view(self.pub_date),
            description: opt_view(self.description),
        }
    }
}

/// The entries that the feed parser reads from the given bytes, in document
/// order, or nothing if the bytes are not a well-formed envelope.
pub uninterp spec fn feed_entries_of(b: Seq<u8>) -> Option<Seq<RawEntryV>>;

/// Relies on the rss crate's `Channel::read_from`: whether the bytes parse
/// as a feed envelope, and each item's title, link, publish date and
/// description, depend on the bytes alone; items keep document order and a
/// missing sub-field is `None`.
#[verifier::external_body]
fn read_feed(bytes: &[u8]) -> (r: Option<Vec<RawEntry>>)
    ensures
        r is Some <==> feed_entries_of(bytes@) is Some,
        r matches Some(es) ==> es@.map_values(|e: RawEntry| e@) == feed_entries_of(
            bytes@,
        ).unwrap(),
{
    match rss::Channel::read_from(bytes) {
        Ok(ch) => Some(
            ch.items.into_iter().map(
                |i| RawEntry {
                    title: i.title,
                    link: i.link,
                    pub_date: i.pub_date,
                    description: i.description,
                },
            ).collect(),
        ),
        Err(_) => None,
    }
}

/// The epoch seconds that the date parser reads from a publish-date string
/// in the fixed `Weekday, DD Mon YYYY HH:MM:SS +ZZZZ` pattern, or nothing
/// if the string does not match it.
pub uninterp spec fn epoch_of(s: Seq<char>) -> Option<int>;

/// Relies on chrono's `DateTime::parse_from_str` with the fixed pattern
/// `%a, %d %b %Y %H:%M:%S %z`, and on `DateTime::timestamp`: whether the
/// string matches, and the resulting epoch seconds with the written UTC
/// offset applied, depend on the characters alone.
#[verifier::external_body]
fn read_date(s: &str) -> (r: Option<i64>)
    ensures
        r is Some <==> epoch_of(s@) is Some,
        r matches Some(t) ==> t as int == epoch_of(s@).unwrap(),
{
    chrono::DateTime::parse_from_str(s, "%a, %d %b %Y %H:%M:%S %z").ok().map(|d| d.timestamp())
}

/// A publish-date string as epoch seconds, or `DateParse` carrying the
/// string if and only if it does not match the expected pattern.
pub fn parse_date(date_str: &str) -> (r: Result<i64, DecodeError>)
    ensures
        r matches Ok(t) ==> epoch_of(date_str@) == Some(t as int),
        r matches Err(e) ==> epoch_of(date_str@) is None && e@ == DecodeErrorV::DateParse(
            date_str@,
        ),
{
    match read_date(date_str) {
        Some(t) => Ok(t),
        None => Err(DecodeError::DateParse(date_str.to_owned())),
    }
}

/// An absent envelope sub-field decodes as the empty string.
pub open spec fn opt_or_empty(o: Option<Seq<char>>) -> Seq<char> {
    match o {
        Some(s) => s,
        None => Seq::empty(),
    }
}

/// The record of one entry that carries a description: its date is
/// normalized first, then the record is built from its fields.
pub open spec fn entry_record(e: RawEntryV) -> Result<JobPostV, DecodeErrorV> {
    let posted = opt_or_empty(e.pub_date);
    match epoch_of(posted) {
        None => Err(DecodeErrorV::DateParse(posted)),
        Some(ts) => record_spec(
            posted,
            ts,
            opt_or_empty(e.title),
            opt_or_empty(e.link),
            opt_or_empty(e.description),
        ),
    }
}

/// The records decoded from the raw entries, in order: entries without a
/// description are dropped, every other entry must yield a record, and the
/// first failure aborts the whole sequence.
pub open spec fn decode_seq(es: Seq<RawEntryV>) -> Result<Seq<JobPostV>, DecodeErrorV>
    decreases es.len(),
{
    if es.len() == 0 {
        Ok(Seq::empty())
    } else if es[0].description is None {
        decode_seq(es.drop_first())
    } else {
        match entry_record(es[0]) {
            Err(e) => Err(e),
            Ok(p) => match decode_seq(es.drop_first()) {
                Err(e) => Err(e),
                Ok(rest) => Ok(seq![p] + rest),
            },
        }
    }
}

/// What the whole pipeline returns for the given envelope bytes.
pub open spec fn pipeline_spec(b: Seq<u8>) -> Result<Seq<JobPostV>, DecodeErrorV> {
    match feed_entries_of(b) {
        None => Err(DecodeErrorV::FeedParse),
        Some(es) => decode_seq(es),
    }
}

/// How a partial decode continues: the records decoded so far, followed by
/// whatever the remaining entries yield.
spec fn decode_cont(
    full: Result<Seq<JobPostV>, DecodeErrorV>,
    done: Seq<JobPostV>,
    rest: Result<Seq<JobPostV>, DecodeErrorV>,
) -> bool {
    match rest {
        Ok(ps) => full == Ok::<Seq<JobPostV>, DecodeErrorV>(done + ps),
        Err(e) => full == Err::<Seq<JobPostV>, DecodeErrorV>(e),
    }
}

/// Decodes a feed-envelope byte buffer into the ordered sequence of its
/// records; see `pipeline_spec` for exactly which records, and which error,
/// come back.
pub fn parse_xml(bytes: &[u8]) -> (r: Result<Vec<JobPost>, DecodeError>)
    ensures
        r matches Ok(ps) ==> pipeline_spec(bytes@) == Ok::<Seq<JobPostV>, DecodeErrorV>(
            ps@.map_values(|p: JobPost| p@),
        ) && (forall|i: int| 0 <= i < ps@.len() ==> ps@[i].wf()),
        r matches Err(e) ==> pipeline_spec(bytes@) == Err::<Seq<JobPostV>, DecodeErrorV>(e@),
{
    let entries = match read_feed(bytes) {
        Some(es) => es,
        None => {
            return Err(DecodeError::FeedParse);
        },
    };
    let ghost ev = feed_entries_of(bytes@).unwrap();
    let mut out: Vec<JobPost> = Vec::new();
    proof {
        assert(ev.skip(0) =~= ev);
        assert(out@.map_values(|p: JobPost| p@) =~= Seq::<JobPostV>::empty());
    }
    let mut i: usize = 0;
    while i < entries.len()
        invariant
            i <= entries.len(),
            feed_entries_of(bytes@) == Some(ev),
            entries@.map_values(|e: RawEntry| e@) == ev,
            forall|j: int| 0 <= j < out@.len() ==> out@[j].wf(),
            decode_cont(
                decode_seq(ev),
                out@.map_values(|p: JobPost| p@),
                decode_seq(ev.skip(i as int)),
            ),
        decreases entries.len() - i,
    {
        proof {
            assert(ev.len() == entries@.len());
            assert(ev[i as int] == entries@[i as int]@);
            assert(ev.skip(i as int).len() == ev.len() - i);
            assert(ev.skip(i as int)[0] == ev[i as int]);
            assert(ev.skip(i as int).drop_first() =~= ev.skip(i as int + 1));
        }
        let e = &entries[i];
        match &e.description {
            None => {},
            Some(desc) => {
                let title = match &e.title {
                    Some(t) => t.as_str().to_owned(),
                    None => String::new(),
                };
                let link = match &e.link {
                    Some(l) => l.as_str().to_owned(),
                    None => String::new(),
                };
                let posted = match &e.pub_date {
                    Some(p) => p.as_str().to_owned(),
                    None => String::new(),
                };
                let timestamp = match parse_date(posted.as_str()) {
                    Ok(t) => t,
                    Err(err) => {
                        return Err(err);
                    },
                };
                let post = match mapped_detail(
                    posted,
                    timestamp,
                    title,
                    link,
                    desc.as_str().to_owned(),
                ) {
                    Ok(p) => p,
                    Err(err) => {
                        return Err(err);
                    },
                };
                let ghost prev = out@;
                out.push(post);
                proof {
                    assert(out@.map_values(|p: JobPost| p@) =~= prev.map_values(
                        |p: JobPost| p@,
                    ).push(post@));
                    assert(prev.map_values(|p: JobPost| p@).push(post@) =~= prev.map_values(
                        |p: JobPost| p@,
                    ) + seq![post@]);
                    assert(forall|a: Seq<JobPostV>, b: Seq<JobPostV>, c: Seq<JobPostV>|
                        (a + b) + c =~= a + (b + c));
                }
            },
        }
        i = i + 1;
    }
    proof {
        assert(ev.skip(entries@.len() as int) =~= Seq::<RawEntryV>::empty());
        assert(out@.map_values(|p: JobPost| p@) + Seq::<JobPostV>::empty() =~= out@.map_values(
            |p: JobPost| p@,
        ));
    }
    Ok(out)
}

/// A well-formed envelope that holds no entries decodes to the empty
/// record sequence, with no error.
pub proof fn lemma_empty_feed_decodes_empty(b: Seq<u8>)
    requires
        feed_entries_of(b) == Some(Seq::<RawEntryV>::empty()),
    ensures
        pipeline_spec(b) == Ok::<Seq<JobPostV>, DecodeErrorV>(Seq::<JobPostV>::empty()),
{
}

/// The first failing entry decides the whole decode: when every earlier
/// entry that carries a description yields a record, and entry `i` carries
/// one but fails, the whole sequence decodes to exactly that entry's error
/// — no records come back, not even the earlier successful ones.
pub proof fn lemma_first_failure_aborts(es: Seq<RawEntryV>, i: int)
    requires
        0 <= i < es.len(),
        es[i].description is Some,
        entry_record(es[i]) is Err,
        forall|k: int|
            0 <= k < i && (#[trigger] es[k]).description is Some ==> entry_record(es[k]) is Ok,
    ensures
        decode_seq(es) == Err::<Seq<JobPostV>, DecodeErrorV>(entry_record(es[i])->Err_0),
    decreases es.len(),
{
    assert(forall|k: int| 0 <= k < es.len() - 1 ==> #[trigger] es.drop_first()[k] == es[k + 1]);
    if es[0].description is None {
        lemma_first_failure_aborts(es.drop_first(), i - 1);
    } else if i > 0 {
        assert(entry_record(es[0]) is Ok);
        lemma_first_failure_aborts(es.drop_first(), i - 1);
    }
}

/// The entries that carry a description, in feed order.
pub open spec fn described(es: Seq<RawEntryV>) -> Seq<RawEntryV>
    decreases es.len(),
{
    if es.len() == 0 {
        Seq::empty()
    } else if es[0].description is None {
        described(es.drop_first())
    } else {
        seq![es[0]] + described(es.drop_first())
    }
}

/// A successful decode yields exactly one record per entry that carries a
/// description, in the original feed order: the k-th record is the record
/// of the k-th such entry, and entries without a description leave no
/// trace.
pub proof fn lemma_decode_keeps_order(es: Seq<RawEntryV>, ps: Seq<JobPostV>)
    requires
        decode_seq(es) == Ok::<Seq<JobPostV>, DecodeErrorV>(ps),
    ensures
        ps.len() == described(es).len(),
        forall|k: int|
            0 <= k < ps.len() ==> entry_record(#[trigger] described(es)[k]) == Ok::<
                JobPostV,
                DecodeErrorV,
            >(ps[k]),
    decreases es.len(),
{
    if es.len() == 0 {
        assert(ps =~= Seq::<JobPostV>::empty());
    } else if es[0].description is None {
        lemma_decode_keeps_order(es.drop_first(), ps);
    } else {
        let p = entry_record(es[0])->Ok_0;
        let rest = decode_seq(es.drop_first())->Ok_0;
        assert(ps == seq![p] + rest);
        assert(rest =~= ps.drop_first());
        lemma_decode_keeps_order(es.drop_first(), rest);
        let ds = described(es);
        assert(ds == seq![es[0]] + described(es.drop_first()));
        assert forall|k: int| 0 <= k < ps.len() implies entry_record(#[trigger] ds[k]) == Ok::<
            JobPostV,
            DecodeErrorV,
        >(ps[k]) by {
            if k == 0 {
                assert(ds[0] == es[0]);
                assert(ps[0] == p);
            } else {
                assert(ds[k] == described(es.drop_first())[k - 1]);
                assert(ps[k] == rest[k - 1]);
            }
        }
    }
}

} // verus!
