//! Per-candidate evaluation: parsing one input line, judging the probe
//! outcome against the baseline identity, running the filter chain, and
//! building the accepted record. Every candidate ends in exactly one of
//! accepted, rejected with a reason, or dead.

use vstd::prelude::*;

use crate::filter::{decide, spec_decide, AnonymityFlags, FilterDecision, SpecDecision};
use crate::geo::{enrich, lookup_anonymity, spec_empty_geo, GeoDatabase, GeoRecord, SpecGeoRecord};
use crate::http::{IdentityDocument, ProbeOutcome, SpecIdentityDocument, SpecProbeOutcome};
use crate::ip::{all_wf, parse_ip_text, spec_in_cidr_list, spec_in_ip_list, spec_parse_ip,
    IpAddress, Network};
use crate::text::{dec_digits, spec_parse_u16, split_at_char, split_on_char, parse_u16};

verus! {

/// One candidate read from the input list, not yet validated.
pub struct ProxyCandidate {
    /// Declared address, as the list gave it.
    pub ip: String,
    /// Declared port.
    pub port: u16,
    /// Country hint carried by the list; not trusted, kept for output.
    pub hint_country: String,
    /// Organisation hint carried by the list; not trusted.
    pub hint_org: String,
}

/// The mathematical image of a candidate.
pub ghost struct SpecCandidate {
    pub ip: Seq<char>,
    pub port: u16,
    pub hint_country: Seq<char>,
    pub hint_org: Seq<char>,
}

impl View for ProxyCandidate {
    type V = SpecCandidate;

    open spec fn view(&self) -> SpecCandidate {
        SpecCandidate {
            ip: self.ip@,
            port: self.port,
            hint_country: self.hint_country@,
            hint_org: self.hint_org@,
        }
    }
}

/// Why a candidate was rejected.
#[derive(Debug)]
pub enum RejectReason {
    /// The input line has fewer than four comma-separated fields.
    MalformedLine,
    /// The port field is no sixteen-bit decimal number.
    InvalidPort,
    /// The declared address is no address.
    InvalidIpFormat,
    /// The anonymity database flagged the address; the text names the
    /// flags that fired.
    Anonymous(String),
    /// The address stands in the abuse list.
    AbuseListed,
    /// A network of the CIDR blocklist contains the address.
    CidrBlocked,
}

/// The mathematical image of a rejection reason.
pub ghost enum SpecRejectReason {
    MalformedLine,
    InvalidPort,
    InvalidIpFormat,
    Anonymous(Seq<char>),
    AbuseListed,
    CidrBlocked,
}

impl View for RejectReason {
    type V = SpecRejectReason;

    open spec fn view(&self) -> SpecRejectReason {
        match self {
            RejectReason::MalformedLine => SpecRejectReason::MalformedLine,
            RejectReason::InvalidPort => SpecRejectReason::InvalidPort,
            RejectReason::InvalidIpFormat => SpecRejectReason::InvalidIpFormat,
            RejectReason::Anonymous(s) => SpecRejectReason::Anonymous(s@),
            RejectReason::AbuseListed => SpecRejectReason::AbuseListed,
            RejectReason::CidrBlocked => SpecRejectReason::CidrBlocked,
        }
    }
}

/// Why a candidate was found dead.
#[derive(Clone, Copy, PartialEq, Eq, Structural, Debug)]
pub enum DeadReason {
    /// The transport connection failed.
    ConnectFailed,
    /// The TLS handshake or the stream failed.
    TlsFailed,
    /// The probe's whole-operation timeout expired.
    Timeout,
    /// The response body was no JSON.
    MalformedResponse,
    /// The response carried no empty line after its headers.
    NoSeparator,
    /// The probed identity equals the baseline: nothing was relayed.
    SameIdentity,
    /// The response carried no client-address field.
    MissingClientIp,
}

/// The accepted, enriched outcome for one candidate.
#[derive(Debug)]
pub struct LiveProxyRecord {
    pub ip: String,
    pub port: u16,
    pub hint_country: String,
    pub hint_org: String,
    pub geo: GeoRecord,
}

/// The mathematical image of an accepted record.
pub ghost struct SpecLiveRecord {
    pub ip: Seq<char>,
    pub port: u16,
    pub hint_country: Seq<char>,
    pub hint_org: Seq<char>,
    pub geo: SpecGeoRecord,
}

impl View for LiveProxyRecord {
    type V = SpecLiveRecord;

    open spec fn view(&self) -> SpecLiveRecord {
        SpecLiveRecord {
            ip: self.ip@,
            port: self.port,
            hint_country: self.hint_country@,
            hint_org: self.hint_org@,
            geo: self.geo@,
        }
    }
}

/// The one terminal state of one candidate.
#[derive(Debug)]
pub enum Evaluation {
    Accepted(LiveProxyRecord),
    Rejected(RejectReason),
    Dead(DeadReason),
}

/// The mathematical image of an evaluation.
pub ghost enum SpecEvaluation {
    Accepted(SpecLiveRecord),
    Rejected(SpecRejectReason),
    Dead(DeadReason),
}

impl View for Evaluation {
    type V = SpecEvaluation;

    open spec fn view(&self) -> SpecEvaluation {
        match self {
            Evaluation::Accepted(r) => SpecEvaluation::Accepted(r@),
            Evaluation::Rejected(r) => SpecEvaluation::Rejected(r@),
            Evaluation::Dead(d) => SpecEvaluation::Dead(*d),
        }
    }
}

/// What parsing one input line yields: at least four comma-separated
/// fields and a sixteen-bit decimal port, or the reason it is rejected
/// before any probe.
pub open spec fn spec_parse_candidate(line: Seq<char>) -> Result<SpecCandidate, SpecRejectReason> {
    let parts = split_at_char(line, ',');
    if parts.len() < 4 {
        Err(SpecRejectReason::MalformedLine)
    } else {
        match spec_parse_u16(parts[1]) {
            Some(p) => Ok(
                SpecCandidate {
                    ip: parts[0],
                    port: p,
                    hint_country: parts[2],
                    hint_org: parts[3],
                },
            ),
            None => Err(SpecRejectReason::InvalidPort),
        }
    }
}

/// Parses one input line into a candidate.
pub fn parse_candidate(line: &str) -> (r: Result<ProxyCandidate, RejectReason>)
    ensures
        match spec_parse_candidate(line@) {
            Ok(c) => r is Ok && r->Ok_0@ == c,
            Err(e) => r is Err && r->Err_0@ == e,
        },
{
    let parts = split_on_char(line, ',');
    if parts.len() < 4 {
        return Err(RejectReason::MalformedLine);
    }
    match parse_u16(parts[1].as_str()) {
        Some(p) => Ok(
            ProxyCandidate {
                ip: parts[0].clone(),
                port: p,
                hint_country: parts[2].clone(),
                hint_org: parts[3].clone(),
            },
        ),
        None => Err(RejectReason::InvalidPort),
    }
}

/// How a probed identity stands to the baseline.
#[derive(Clone, Copy, PartialEq, Eq, Structural, Debug)]
pub enum IdentityCheck {
    /// The probed address differs from the baseline: traffic relayed.
    Distinct,
    /// The probed address equals the baseline: nothing was relayed.
    Same,
    /// The response carried no client address.
    Missing,
}

/// The identity rule: a missing client address or one equal to the
/// baseline kills the candidate; only a distinct one goes on.
pub open spec fn spec_identity_check(doc: SpecIdentityDocument, baseline: Seq<char>) -> IdentityCheck {
    match doc.client_ip {
        None => IdentityCheck::Missing,
        Some(ip) => if ip == baseline {
            IdentityCheck::Same
        } else {
            IdentityCheck::Distinct
        },
    }
}

/// Compares the probed identity against the baseline.
pub fn check_identity(doc: &IdentityDocument, baseline: &String) -> (r: IdentityCheck)
    ensures
        r == spec_identity_check(doc@, baseline@),
{
    match &doc.client_ip {
        None => IdentityCheck::Missing,
        Some(ip) => if ip.eq(baseline) {
            IdentityCheck::Same
        } else {
            IdentityCheck::Distinct
        },
    }
}

/// The whole judgement of one probed candidate: any outcome but an
/// identity is dead with the matching reason; a missing or baseline-
/// equal identity is dead; then the declared address must parse, the
/// filter chain must accept, and the record carries the candidate's
/// fields with the enrichment.
pub open spec fn spec_evaluate(
    c: SpecCandidate,
    baseline: Seq<char>,
    o: SpecProbeOutcome,
    anon: Option<AnonymityFlags>,
    abuse: Seq<IpAddress>,
    cidrs: Seq<Network>,
    geo: SpecGeoRecord,
) -> SpecEvaluation {
    match o {
        SpecProbeOutcome::Identity(doc) => match spec_identity_check(doc, baseline) {
            IdentityCheck::Missing => SpecEvaluation::Dead(DeadReason::MissingClientIp),
            IdentityCheck::Same => SpecEvaluation::Dead(DeadReason::SameIdentity),
            IdentityCheck::Distinct => match spec_parse_ip(c.ip) {
                None => SpecEvaluation::Rejected(SpecRejectReason::InvalidIpFormat),
                Some(addr) => match spec_decide(addr, anon, abuse, cidrs) {
                    SpecDecision::Accept => SpecEvaluation::Accepted(
                        SpecLiveRecord {
                            ip: c.ip,
                            port: c.port,
                            hint_country: c.hint_country,
                            hint_org: c.hint_org,
                            geo,
                        },
                    ),
                    SpecDecision::RejectAnonymous(t) => SpecEvaluation::Rejected(
                        SpecRejectReason::Anonymous(t),
                    ),
                    SpecDecision::RejectAbuse => SpecEvaluation::Rejected(
                        SpecRejectReason::AbuseListed,
                    ),
                    SpecDecision::RejectCidr => SpecEvaluation::Rejected(
                        SpecRejectReason::CidrBlocked,
                    ),
                },
            },
        },
        SpecProbeOutcome::ConnectFailed => SpecEvaluation::Dead(DeadReason::ConnectFailed),
        SpecProbeOutcome::TlsFailed => SpecEvaluation::Dead(DeadReason::TlsFailed),
        SpecProbeOutcome::Timeout => SpecEvaluation::Dead(DeadReason::Timeout),
        SpecProbeOutcome::MalformedResponse => SpecEvaluation::Dead(DeadReason::MalformedResponse),
        SpecProbeOutcome::NoSeparator => SpecEvaluation::Dead(DeadReason::NoSeparator),
    }
}

/// Judges one probed candidate, the filter inputs and the enrichment
/// given as plain values.
pub fn evaluate_probed(
    candidate: &ProxyCandidate,
    baseline: &String,
    outcome: &ProbeOutcome,
    anon: &Option<AnonymityFlags>,
    abuse: &Vec<IpAddress>,
    cidrs: &Vec<Network>,
    geo: GeoRecord,
) -> (r: Evaluation)
    requires
        all_wf(cidrs@),
    ensures
        r@ == spec_evaluate(candidate@, baseline@, outcome@, *anon, abuse@, cidrs@, geo@),
{
    match outcome {
        ProbeOutcome::Identity(doc) => match check_identity(doc, baseline) {
            IdentityCheck::Missing => Evaluation::Dead(DeadReason::MissingClientIp),
            IdentityCheck::Same => Evaluation::Dead(DeadReason::SameIdentity),
            IdentityCheck::Distinct => match parse_ip_text(candidate.ip.as_str()) {
                None => Evaluation::Rejected(RejectReason::InvalidIpFormat),
                Some(addr) => match decide(&addr, anon, abuse, cidrs) {
                    FilterDecision::Accept => Evaluation::Accepted(
                        LiveProxyRecord {
                            ip: candidate.ip.clone(),
                            port: candidate.port,
                            hint_country: candidate.hint_country.clone(),
                            hint_org: candidate.hint_org.clone(),
                            geo,
                        },
                    ),
                    FilterDecision::RejectAnonymous(t) => Evaluation::Rejected(
                        RejectReason::Anonymous(t),
                    ),
                    FilterDecision::RejectAbuse => Evaluation::Rejected(RejectReason::AbuseListed),
                    FilterDecision::RejectCidr => Evaluation::Rejected(RejectReason::CidrBlocked),
                },
            },
        },
        ProbeOutcome::ConnectFailed => Evaluation::Dead(DeadReason::ConnectFailed),
        ProbeOutcome::TlsFailed => Evaluation::Dead(DeadReason::TlsFailed),
        ProbeOutcome::Timeout => Evaluation::Dead(DeadReason::Timeout),
        ProbeOutcome::MalformedResponse => Evaluation::Dead(DeadReason::MalformedResponse),
        ProbeOutcome::NoSeparator => Evaluation::Dead(DeadReason::NoSeparator),
    }
}

/// The record line of one accepted candidate: its eight fields, comma
/// separated, the enrichment's country and city and system fields in
/// the middle.
pub open spec fn spec_record_line(r: SpecLiveRecord) -> Seq<char> {
    r.ip + seq![','] + dec_digits(r.port as int) + seq![','] + r.geo.country_code + seq![',']
        + r.geo.country_name + seq![','] + r.geo.city_code + seq![','] + r.geo.city_name
        + seq![','] + r.geo.asn_number + seq![','] + r.geo.org_name
}

/// Renders one accepted record as its output line.
pub fn format_record(r: &LiveProxyRecord) -> (line: String)
    ensures
        line@ == spec_record_line(r@),
{
    let mut s = String::new();
    s.append(r.ip.as_str());
    s.append(",");
    let port_text = crate::text::render_u64(r.port as u64);
    s.append(port_text.as_str());
    s.append(",");
    s.append(r.geo.country_code.as_str());
    s.append(",");
    s.append(r.geo.country_name.as_str());
    s.append(",");
    s.append(r.geo.city_code.as_str());
    s.append(",");
    s.append(r.geo.city_name.as_str());
    s.append(",");
    s.append(r.geo.asn_number.as_str());
    s.append(",");
    s.append(r.geo.org_name.as_str());
    proof {
        reveal_strlit(",");
        assert(","@ =~= seq![',']);
        assert(s@ =~= spec_record_line(r@));
    }
    s
}

/// The disposition of an evaluation, with the record's content set
/// aside: which terminal state it is, and for what reason.
pub ghost enum SpecDisposition {
    Accepted,
    Rejected(SpecRejectReason),
    Dead(DeadReason),
}

/// Projects an evaluation onto its disposition.
pub open spec fn disposition_of(e: SpecEvaluation) -> SpecDisposition {
    match e {
        SpecEvaluation::Accepted(_) => SpecDisposition::Accepted,
        SpecEvaluation::Rejected(r) => SpecDisposition::Rejected(r),
        SpecEvaluation::Dead(d) => SpecDisposition::Dead(d),
    }
}

/// Enrichment never influences the disposition: two evaluations that
/// differ only in the enrichment end in the same terminal state for
/// the same reason.
pub proof fn lemma_geo_irrelevant_to_disposition(
    c: SpecCandidate,
    baseline: Seq<char>,
    o: SpecProbeOutcome,
    anon: Option<AnonymityFlags>,
    abuse: Seq<IpAddress>,
    cidrs: Seq<Network>,
    g1: SpecGeoRecord,
    g2: SpecGeoRecord,
)
    ensures
        disposition_of(spec_evaluate(c, baseline, o, anon, abuse, cidrs, g1)) == disposition_of(
            spec_evaluate(c, baseline, o, anon, abuse, cidrs, g2),
        ),
{
}

/// Judges one probed candidate against the loaded databases: the
/// anonymity flags are looked up when that database is present, and the
/// accepted record is enriched from the geographic databases. For a
/// distinct, well-formed identity the result is the whole judgement
/// (`spec_evaluate`) for whatever flags and enrichment the databases
/// answered — flags present exactly when an anonymity database is.
pub fn evaluate_with_databases(
    candidate: &ProxyCandidate,
    baseline: &String,
    outcome: &ProbeOutcome,
    anon_db: Option<&GeoDatabase>,
    country_db: &GeoDatabase,
    city_db: Option<&GeoDatabase>,
    asn_db: Option<&GeoDatabase>,
    abuse: &Vec<IpAddress>,
    cidrs: &Vec<Network>,
) -> (r: Evaluation)
    requires
        all_wf(cidrs@),
    ensures
        anon_db is None ==> disposition_of(r@) == disposition_of(
            spec_evaluate(
                candidate@,
                baseline@,
                outcome@,
                None,
                abuse@,
                cidrs@,
                spec_empty_geo(),
            ),
        ),
        r@ is Accepted ==> {
            let rec = r@->Accepted_0;
            &&& rec.ip == candidate@.ip
            &&& rec.port == candidate@.port
            &&& rec.hint_country == candidate@.hint_country
            &&& rec.hint_org == candidate@.hint_org
            &&& outcome@ is Identity
            &&& spec_parse_ip(candidate@.ip) is Some
            &&& !(abuse@.len() > 0 && spec_in_ip_list(spec_parse_ip(candidate@.ip).unwrap(), abuse@))
            &&& !(cidrs@.len() > 0 && spec_in_cidr_list(spec_parse_ip(candidate@.ip).unwrap(), cidrs@))
            &&& (city_db is None ==> rec.geo.city_code.len() == 0 && rec.geo.city_name.len() == 0)
            &&& (asn_db is None ==> rec.geo.asn_number.len() == 0 && rec.geo.org_name.len() == 0)
        },
        r@ is Rejected && r@->Rejected_0 is Anonymous ==> anon_db is Some,
        r@ matches SpecEvaluation::Rejected(SpecRejectReason::AbuseListed) ==> abuse@.len() > 0
            && spec_parse_ip(candidate@.ip) is Some && spec_in_ip_list(
            spec_parse_ip(candidate@.ip).unwrap(),
            abuse@,
        ),
        r@ matches SpecEvaluation::Rejected(SpecRejectReason::CidrBlocked) ==> cidrs@.len() > 0
            && spec_parse_ip(candidate@.ip) is Some && spec_in_cidr_list(
            spec_parse_ip(candidate@.ip).unwrap(),
            cidrs@,
        ),
        !(outcome@ is Identity) ==> r@ == spec_evaluate(
            candidate@,
            baseline@,
            outcome@,
            None,
            abuse@,
            cidrs@,
            spec_empty_geo(),
        ),
        outcome@ matches SpecProbeOutcome::Identity(doc) ==> {
            &&& (spec_identity_check(doc, baseline@) == IdentityCheck::Same ==> r@
                == SpecEvaluation::Dead(DeadReason::SameIdentity))
            &&& (spec_identity_check(doc, baseline@) == IdentityCheck::Missing ==> r@
                == SpecEvaluation::Dead(DeadReason::MissingClientIp))
            &&& (spec_identity_check(doc, baseline@) == IdentityCheck::Distinct && spec_parse_ip(
                candidate@.ip,
            ) is None ==> r@ == SpecEvaluation::Rejected(SpecRejectReason::InvalidIpFormat))
        },
        ((outcome@ matches SpecProbeOutcome::Identity(doc) && spec_identity_check(doc, baseline@)
            == IdentityCheck::Distinct) && spec_parse_ip(candidate@.ip) is Some) ==> (exists|
            f: Option<AnonymityFlags>,
            g: SpecGeoRecord,
        |
            {
                &&& (f is Some <==> anon_db is Some)
                &&& r@ == spec_evaluate(candidate@, baseline@, outcome@, f, abuse@, cidrs@, g)
                &&& (city_db is None ==> g.city_code.len() == 0 && g.city_name.len() == 0)
                &&& (asn_db is None ==> g.asn_number.len() == 0 && g.org_name.len() == 0)
            }),
{
    let flags: Option<AnonymityFlags> = match anon_db {
        Some(db) => match lookup_anonymity(db, candidate.ip.as_str()) {
            Some(f) => Some(f),
            None => Some(AnonymityFlags { vpn: false, public_proxy: false, tor_exit: false }),
        },
        None => None,
    };
    let geo = enrich(candidate.ip.as_str(), country_db, city_db, asn_db);
    let ghost g = geo@;
    let r = evaluate_probed(candidate, baseline, outcome, &flags, abuse, cidrs, geo);
    proof {
        lemma_geo_irrelevant_to_disposition(
            candidate@,
            baseline@,
            outcome@,
            flags,
            abuse@,
            cidrs@,
            g,
            spec_empty_geo(),
        );
        assert((flags is Some <==> anon_db is Some) && r@ == spec_evaluate(
            candidate@,
            baseline@,
            outcome@,
            flags,
            abuse@,
            cidrs@,
            g,
        ) && (city_db is None ==> g.city_code.len() == 0 && g.city_name.len() == 0) && (
        asn_db is None ==> g.asn_number.len() == 0 && g.org_name.len() == 0));
    }
    r
}

/// Every candidate's evaluation is exactly one of accepted, rejected
/// and dead, and which one is settled by the probe outcome, the
/// identity rule, the address grammar and the filter chain alone.
pub proof fn lemma_evaluator_terminal(
    c: SpecCandidate,
    baseline: Seq<char>,
    o: SpecProbeOutcome,
    anon: Option<AnonymityFlags>,
    abuse: Seq<IpAddress>,
    cidrs: Seq<Network>,
    geo: SpecGeoRecord,
)
    ensures
        ({
            let e = spec_evaluate(c, baseline, o, anon, abuse, cidrs, geo);
            &&& (e is Accepted <==> ((o matches SpecProbeOutcome::Identity(doc)
                && spec_identity_check(doc, baseline) == IdentityCheck::Distinct) && spec_parse_ip(
                c.ip,
            ) is Some && spec_decide(spec_parse_ip(c.ip).unwrap(), anon, abuse, cidrs)
                == SpecDecision::Accept))
            &&& (e is Dead <==> (!(o is Identity) || (o matches SpecProbeOutcome::Identity(doc)
                && spec_identity_check(doc, baseline) != IdentityCheck::Distinct)))
            &&& (e is Accepted ==> !(e is Dead) && !(e is Rejected))
            &&& (e is Dead ==> !(e is Accepted) && !(e is Rejected))
            &&& (e is Rejected ==> !(e is Accepted) && !(e is Dead))
        }),
{
}

/// A probed identity equal to the baseline is dead, whatever the
/// filters, the blocklists and the enrichment say.
pub proof fn lemma_same_identity_dead(
    c: SpecCandidate,
    baseline: Seq<char>,
    doc: SpecIdentityDocument,
    anon: Option<AnonymityFlags>,
    abuse: Seq<IpAddress>,
    cidrs: Seq<Network>,
    geo: SpecGeoRecord,
)
    requires
        doc.client_ip == Some(baseline),
    ensures
        spec_evaluate(c, baseline, SpecProbeOutcome::Identity(doc), anon, abuse, cidrs, geo)
            == SpecEvaluation::Dead(DeadReason::SameIdentity),
{
}

/// With no anonymity database, an empty abuse list and an empty CIDR
/// blocklist, every distinct, well-formed identity is accepted: the
/// filter chain never rejects, so enrichment is reached.
pub proof fn lemma_empty_filters_accepts(
    c: SpecCandidate,
    baseline: Seq<char>,
    doc: SpecIdentityDocument,
    abuse: Seq<IpAddress>,
    cidrs: Seq<Network>,
    geo: SpecGeoRecord,
)
    requires
        abuse.len() == 0,
        cidrs.len() == 0,
        spec_identity_check(doc, baseline) == IdentityCheck::Distinct,
        spec_parse_ip(c.ip) is Some,
    ensures
        spec_evaluate(c, baseline, SpecProbeOutcome::Identity(doc), None, abuse, cidrs, geo)
            is Accepted,
{
    crate::filter::lemma_empty_filters_accept(spec_parse_ip(c.ip).unwrap(), abuse, cidrs);
}

} // verus!
