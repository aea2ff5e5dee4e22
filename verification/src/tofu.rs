//! Trust on first use: the first certificate seen for a domain is
//! remembered, and later certificates for that domain are judged against
//! it. The store holds one record per domain.

use vstd::prelude::*;
use x509_parser::prelude::FromDer;
use x509_parser::prelude::X509Certificate;
use crate::error::RejectReason;

verus! {

/// What `X509Certificate::from_der` and the parsed certificate's accessors
/// give for a certificate in DER form: the first Common Name of its
/// subject, where there is one and it reads as a string; the two ends of
/// its validity, each in seconds since the epoch; and the raw DER form of
/// its SubjectPublicKeyInfo. `None` where the bytes do not parse.
pub uninterp spec fn x509_certificate(der: Seq<u8>) -> Option<
    (Option<Seq<char>>, (i64, i64), Seq<u8>),
>;

/// Whether the bytes parse as a certificate.
pub open spec fn x509_parses(der: Seq<u8>) -> bool {
    x509_certificate(der) is Some
}

/// The Common Name of a certificate's subject, where it has one.
pub open spec fn x509_common_name(der: Seq<u8>) -> Option<Seq<char>> {
    match x509_certificate(der) {
        Some(certificate) => certificate.0,
        None => None,
    }
}

/// The validity window of a certificate: `not_before` and `not_after`.
pub open spec fn x509_validity(der: Seq<u8>) -> (i64, i64) {
    let certificate = x509_certificate(der)->0;
    certificate.1
}

/// The public key of a certificate, in its DER form.
pub open spec fn x509_public_key(der: Seq<u8>) -> Seq<u8> {
    let certificate = x509_certificate(der)->0;
    certificate.2
}

/// What the trust decision reads of a certificate.
#[derive(Debug, Clone, PartialEq, Eq)]
pub struct CertFacts {
    /// The subject's Common Name, the key under which the domain is filed.
    pub domain: Option<String>,
    /// Start of the validity window, in seconds since the epoch.
    pub not_before: i64,
    /// End of the validity window, in seconds since the epoch.
    pub not_after: i64,
    /// The public key, in its DER form.
    pub public_key: Vec<u8>,
}

/// Parses the certificate with `X509Certificate::from_der` and reads from
/// it: the first item of `subject().iter_common_name()` through `as_str`,
/// the two ends of `validity()` through `ASN1Time::timestamp`, and the
/// `raw` bytes of `public_key()`, which are the DER form of the whole
/// SubjectPublicKeyInfo. A Common Name that is missing or does not read
/// as a string gives no domain. Nothing is claimed of what is read but
/// that it is a function of the bytes.
#[verifier::external_body]
fn read_certificate(der: &[u8]) -> (r: Option<CertFacts>)
    ensures
        facts_of(r) == x509_certificate(der@),
{
    match X509Certificate::from_der(der) {
        Ok((_, cert)) => Some(
            CertFacts {
                domain: match cert.subject().iter_common_name().next() {
                    Some(attribute) => attribute.as_str().ok().map(|name| name.to_string()),
                    None => None,
                },
                not_before: cert.validity().not_before.timestamp(),
                not_after: cert.validity().not_after.timestamp(),
                public_key: cert.public_key().raw.to_vec(),
            },
        ),
        Err(_) => None,
    }
}

/// What was read of a certificate, in the eyes of a contract.
pub open spec fn facts_of(read: Option<CertFacts>) -> Option<
    (Option<Seq<char>>, (i64, i64), Seq<u8>),
> {
    match read {
        Some(facts) => Some(
            (facts.domain_view(), (facts.not_before, facts.not_after), facts.public_key@),
        ),
        None => None,
    }
}

/// One remembered certificate.
#[derive(Debug, Clone, PartialEq, Eq)]
pub struct TrustRecord {
    /// The domain the record is filed under.
    pub domain: String,
    /// The certificate as it was presented.
    pub certificate: Vec<u8>,
    /// Start of the validity window, in seconds since the epoch.
    pub not_before: i64,
    /// End of the validity window, in seconds since the epoch.
    pub not_after: i64,
    /// The public key, in its DER form.
    pub public_key: Vec<u8>,
}

/// How a certificate came to be accepted.
#[derive(Debug, Clone, Copy, PartialEq, Eq, Structural)]
pub enum AcceptKind {
    /// Nothing was on file for the domain; the certificate is now.
    NewTrust,
    /// The certificate matches the still-valid one on file.
    Confirmed,
    /// The one on file had expired and the new one carries the same key;
    /// it has taken the old one's place.
    Renewed,
}

/// The outcome of a trust decision, with its reason either way.
#[derive(Debug, Clone, Copy, PartialEq, Eq, Structural)]
pub enum Verdict {
    Accept { kind: AcceptKind },
    Reject { reason: RejectReason },
}

/// A validity window holds at `now` when `now` lies between its two ends,
/// both included.
pub open spec fn window_holds(not_before: i64, not_after: i64, now: i64) -> bool {
    not_before <= now <= not_after
}

/// The trust decision for a certificate that parsed, given what is on file
/// for its domain.
///
/// A certificate outside its window is refused, then one without a domain.
/// With nothing on file the certificate is trusted anew. Against a record
/// that still holds, equal keys confirm and different keys are refused;
/// against an expired record, equal keys renew and different keys are
/// refused.
pub open spec fn decision(
    domain: Option<Seq<char>>,
    window: (i64, i64),
    key: Seq<u8>,
    on_file: Option<((i64, i64), Seq<u8>)>,
    now: i64,
) -> Verdict {
    if !window_holds(window.0, window.1, now) {
        Verdict::Reject { reason: RejectReason::ExpiredAtPresentation }
    } else if domain is None {
        Verdict::Reject { reason: RejectReason::NoCommonName }
    } else {
        match on_file {
            None => Verdict::Accept { kind: AcceptKind::NewTrust },
            Some((filed_window, filed_key)) => {
                if window_holds(filed_window.0, filed_window.1, now) {
                    if filed_key == key {
                        Verdict::Accept { kind: AcceptKind::Confirmed }
                    } else {
                        Verdict::Reject { reason: RejectReason::KeyMismatch }
                    }
                } else {
                    if filed_key == key {
                        Verdict::Accept { kind: AcceptKind::Renewed }
                    } else {
                        Verdict::Reject { reason: RejectReason::KeyMismatchOnRenewal }
                    }
                }
            },
        }
    }
}

/// Whether a verdict puts the presented certificate on file.
pub open spec fn verdict_writes(verdict: Verdict) -> bool {
    verdict == (Verdict::Accept { kind: AcceptKind::NewTrust }) || verdict == (Verdict::Accept {
        kind: AcceptKind::Renewed,
    })
}

impl Verdict {
    /// Whether the verdict puts the presented certificate on file: new
    /// trust and renewal do, nothing else does.
    pub fn writes(&self) -> (r: bool)
        ensures
            r == verdict_writes(*self),
    {
        match self {
            Verdict::Accept { kind: AcceptKind::NewTrust } => true,
            Verdict::Accept { kind: AcceptKind::Renewed } => true,
            _ => false,
        }
    }

    /// Whether the certificate was accepted.
    pub fn is_accepted(&self) -> (r: bool)
        ensures
            r == (*self is Accept),
    {
        match self {
            Verdict::Accept { .. } => true,
            Verdict::Reject { .. } => false,
        }
    }
}

impl CertFacts {
    /// The domain as a sequence of characters, where there is one.
    pub open spec fn domain_view(&self) -> Option<Seq<char>> {
        match self.domain {
            Some(name) => Some(name@),
            None => None,
        }
    }

    /// Whether these are the facts of the certificate `der`.
    pub open spec fn describes(&self, der: Seq<u8>) -> bool {
        &&& x509_parses(der)
        &&& self.domain_view() == x509_common_name(der)
        &&& (self.not_before, self.not_after) == x509_validity(der)
        &&& self.public_key@ == x509_public_key(der)
    }
}

impl TrustRecord {
    /// What a decision reads of a record: its window and its key.
    pub open spec fn filed(&self) -> ((i64, i64), Seq<u8>) {
        ((self.not_before, self.not_after), self.public_key@)
    }

    /// A record is sound when its window and key are those of the
    /// certificate it holds.
    pub open spec fn sound(&self) -> bool {
        &&& x509_parses(self.certificate@)
        &&& (self.not_before, self.not_after) == x509_validity(self.certificate@)
        &&& self.public_key@ == x509_public_key(self.certificate@)
    }
}

/// What is on file in the eyes of a decision.
pub open spec fn filed_facts(on_file: Option<&TrustRecord>) -> Option<((i64, i64), Seq<u8>)> {
    match on_file {
        Some(record) => Some(record.filed()),
        None => None,
    }
}

/// Whether two byte strings are equal.
pub fn same_bytes(a: &Vec<u8>, b: &Vec<u8>) -> (r: bool)
    ensures
        r == (a@ == b@),
{
    if a.len() != b.len() {
        return false;
    }
    let mut i: usize = 0;
    while i < a.len()
        invariant
            a.len() == b.len(),
            i <= a.len(),
            forall|j: int| 0 <= j < i ==> a@[j] == b@[j],
        decreases a.len() - i,
    {
        if a[i] != b[i] {
            return false;
        }
        i += 1;
    }
    assert(a@ =~= b@);
    true
}

/// Whether `now` lies in the window from `not_before` to `not_after`.
pub fn window_contains(not_before: i64, not_after: i64, now: i64) -> (r: bool)
    ensures
        r == window_holds(not_before, not_after, now),
{
    not_before <= now && now <= not_after
}

/// Reads what the trust decision needs from a certificate in DER form.
/// `None` exactly where the certificate does not parse.
pub fn inspect_certificate(der: &Vec<u8>) -> (r: Option<CertFacts>)
    ensures
        r is Some <==> x509_parses(der@),
        r matches Some(facts) ==> facts.describes(der@),
{
    read_certificate(der.as_slice())
}

/// The trust decision, from what a certificate says and what is on file
/// for its domain.
pub fn decide(presented: &CertFacts, on_file: Option<&TrustRecord>, now: i64) -> (verdict: Verdict)
    ensures
        verdict == decision(
            presented.domain_view(),
            (presented.not_before, presented.not_after),
            presented.public_key@,
            filed_facts(on_file),
            now,
        ),
{
    if !window_contains(presented.not_before, presented.not_after, now) {
        return Verdict::Reject { reason: RejectReason::ExpiredAtPresentation };
    }
    if presented.domain.is_none() {
        return Verdict::Reject { reason: RejectReason::NoCommonName };
    }
    match on_file {
        None => Verdict::Accept { kind: AcceptKind::NewTrust },
        Some(record) => {
            let same_key = same_bytes(&record.public_key, &presented.public_key);
            if window_contains(record.not_before, record.not_after, now) {
                if same_key {
                    Verdict::Accept { kind: AcceptKind::Confirmed }
                } else {
                    Verdict::Reject { reason: RejectReason::KeyMismatch }
                }
            } else {
                if same_key {
                    Verdict::Accept { kind: AcceptKind::Renewed }
                } else {
                    Verdict::Reject { reason: RejectReason::KeyMismatchOnRenewal }
                }
            }
        },
    }
}

/// Whether some record in `records` is filed under `domain`.
pub open spec fn filed_under(records: Seq<TrustRecord>, domain: Seq<char>) -> bool {
    exists|i: int| 0 <= i < records.len() && records[i].domain@ == domain
}

/// The place of the record filed under `domain`; meaningful only when
/// there is one.
pub open spec fn place_of(records: Seq<TrustRecord>, domain: Seq<char>) -> int {
    choose|i: int| 0 <= i < records.len() && records[i].domain@ == domain
}

/// Records are in order when each is sound and no two share a domain.
pub open spec fn records_in_order(records: Seq<TrustRecord>) -> bool {
    &&& forall|i: int| 0 <= i < records.len() ==> (#[trigger] records[i]).sound()
    &&& forall|i: int, j: int|
        0 <= i < j < records.len() ==> (#[trigger] records[i]).domain@ != (
        #[trigger] records[j]).domain@
}

/// The certificates on file, by domain.
pub open spec fn certificates_by_domain(records: Seq<TrustRecord>) -> Map<Seq<char>, Seq<u8>> {
    Map::new(
        |domain: Seq<char>| filed_under(records, domain),
        |domain: Seq<char>| records[place_of(records, domain)].certificate@,
    )
}

/// In ordered records, the record at `i` is the one its domain leads to.
pub proof fn lemma_place_of(records: Seq<TrustRecord>, i: int)
    requires
        records_in_order(records),
        0 <= i < records.len(),
    ensures
        filed_under(records, records[i].domain@),
        place_of(records, records[i].domain@) == i,
{
    let domain = records[i].domain@;
    let k = place_of(records, domain);
    assert(0 <= k < records.len() && records[k].domain@ == domain);
    if k < i {
        assert(records[k].domain@ != records[i].domain@);
    } else if i < k {
        assert(records[i].domain@ != records[k].domain@);
    }
}

/// Filing a sound record under a domain that has none adds that domain's
/// certificate and changes nothing else.
pub proof fn lemma_file_new(records: Seq<TrustRecord>, record: TrustRecord)
    requires
        records_in_order(records),
        record.sound(),
        !filed_under(records, record.domain@),
    ensures
        records_in_order(records.push(record)),
        certificates_by_domain(records.push(record)) == certificates_by_domain(records).insert(
            record.domain@,
            record.certificate@,
        ),
{
    let after = records.push(record);
    let n = records.len() as int;
    assert forall|i: int, j: int| 0 <= i < j < after.len() implies (#[trigger] after[i]).domain@
        != (#[trigger] after[j]).domain@ by {
        if j == n {
            assert(after[i] == records[i]);
            if after[i].domain@ == record.domain@ {
                assert(filed_under(records, record.domain@));
            }
        } else {
            assert(after[i] == records[i] && after[j] == records[j]);
        }
    }
    assert forall|i: int| 0 <= i < after.len() implies (#[trigger] after[i]).sound() by {
        if i < n {
            assert(after[i] == records[i]);
        }
    }
    let before_map = certificates_by_domain(records).insert(record.domain@, record.certificate@);
    let after_map = certificates_by_domain(after);
    assert forall|domain: Seq<char>| after_map.dom().contains(domain) <==> before_map.dom().contains(
        domain,
    ) by {
        if filed_under(after, domain) {
            let i = place_of(after, domain);
            if i < n {
                assert(records[i].domain@ == domain);
            }
        }
        if filed_under(records, domain) {
            let i = place_of(records, domain);
            assert(after[i].domain@ == domain);
        }
        if domain == record.domain@ {
            assert(after[n].domain@ == domain);
        }
    }
    assert forall|domain: Seq<char>| after_map.dom().contains(domain) implies after_map[domain]
        == before_map[domain] by {
        let i = place_of(after, domain);
        lemma_place_of(after, i);
        if i < n {
            assert(after[i] == records[i]);
            lemma_place_of(records, i);
        }
    }
    assert(after_map =~= before_map);
}

/// Putting a sound record in the place of the one filed under the same
/// domain changes that domain's certificate and nothing else.
pub proof fn lemma_file_again(records: Seq<TrustRecord>, at: int, record: TrustRecord)
    requires
        records_in_order(records),
        record.sound(),
        0 <= at < records.len(),
        records[at].domain@ == record.domain@,
    ensures
        records_in_order(records.update(at, record)),
        certificates_by_domain(records.update(at, record)) == certificates_by_domain(
            records,
        ).insert(record.domain@, record.certificate@),
{
    let after = records.update(at, record);
    assert forall|i: int, j: int| 0 <= i < j < after.len() implies (#[trigger] after[i]).domain@
        != (#[trigger] after[j]).domain@ by {
        assert(after[i].domain@ == records[i].domain@);
        assert(after[j].domain@ == records[j].domain@);
    }
    assert forall|i: int| 0 <= i < after.len() implies (#[trigger] after[i]).sound() by {
        if i != at {
            assert(after[i] == records[i]);
        }
    }
    let before_map = certificates_by_domain(records).insert(record.domain@, record.certificate@);
    let after_map = certificates_by_domain(after);
    assert forall|domain: Seq<char>| after_map.dom().contains(domain) <==> before_map.dom().contains(
        domain,
    ) by {
        if filed_under(after, domain) {
            let i = place_of(after, domain);
            assert(records[i].domain@ == domain);
        }
        if filed_under(records, domain) {
            let i = place_of(records, domain);
            assert(after[i].domain@ == domain);
        }
        if domain == record.domain@ {
            assert(after[at].domain@ == domain);
        }
    }
    assert forall|domain: Seq<char>| after_map.dom().contains(domain) implies after_map[domain]
        == before_map[domain] by {
        let i = place_of(after, domain);
        lemma_place_of(after, i);
        if i != at {
            assert(after[i] == records[i]);
            lemma_place_of(records, i);
        }
    }
    assert(after_map =~= before_map);
}

/// The certificates a client has come to trust, one per domain.
pub struct TrustStore {
    records: Vec<TrustRecord>,
}

impl View for TrustStore {
    type V = Map<Seq<char>, Seq<u8>>;

    /// The store as a map from each domain to the certificate on file.
    closed spec fn view(&self) -> Map<Seq<char>, Seq<u8>> {
        certificates_by_domain(self.records@)
    }
}

/// The verdict on a certificate presented to a store at time `now`.
///
/// A certificate that does not parse is refused as invalid. One that
/// parses is decided on what it says and on what the store has on file
/// under its Common Name.
pub open spec fn verdict_for(store: Map<Seq<char>, Seq<u8>>, der: Seq<u8>, now: i64) -> Verdict {
    if !x509_parses(der) {
        Verdict::Reject { reason: RejectReason::InvalidCertificate }
    } else {
        decision(
            x509_common_name(der),
            x509_validity(der),
            x509_public_key(der),
            on_file_for(store, x509_common_name(der)),
            now,
        )
    }
}

/// What a store has on file for a domain, in the eyes of a decision.
pub open spec fn on_file_for(store: Map<Seq<char>, Seq<u8>>, domain: Option<Seq<char>>) -> Option<
    ((i64, i64), Seq<u8>),
> {
    match domain {
        Some(name) => if store.dom().contains(name) {
            Some((x509_validity(store[name]), x509_public_key(store[name])))
        } else {
            None
        },
        None => None,
    }
}

/// The store after a certificate was presented to it: with the
/// certificate on file under its Common Name where the verdict is new
/// trust or a renewal, and unchanged otherwise.
pub open spec fn store_after(store: Map<Seq<char>, Seq<u8>>, der: Seq<u8>, now: i64) -> Map<
    Seq<char>,
    Seq<u8>,
> {
    if verdict_writes(verdict_for(store, der, now)) {
        store.insert(x509_common_name(der)->0, der)
    } else {
        store
    }
}

impl TrustStore {
    /// The store's invariant: every record is sound, and no two records
    /// share a domain.
    pub closed spec fn wf(&self) -> bool {
        records_in_order(self.records@)
    }

    /// An empty store.
    pub fn new() -> (store: Self)
        ensures
            store.wf(),
            store@ == Map::<Seq<char>, Seq<u8>>::empty(),
    {
        let store = TrustStore { records: Vec::new() };
        assert(store@ =~= Map::<Seq<char>, Seq<u8>>::empty());
        store
    }

    fn place(&self, domain: &String) -> (r: Option<usize>)
        requires
            self.wf(),
        ensures
            r is Some <==> filed_under(self.records@, domain@),
            r matches Some(at) ==> at < self.records@.len() && self.records@[at as int].domain@
                == domain@ && place_of(self.records@, domain@) == at,
    {
        let mut i: usize = 0;
        while i < self.records.len()
            invariant
                i <= self.records@.len(),
                self.wf(),
                forall|j: int| 0 <= j < i ==> self.records@[j].domain@ != domain@,
            decreases self.records@.len() - i,
        {
            if self.records[i].domain == *domain {
                proof {
                    lemma_place_of(self.records@, i as int);
                }
                return Some(i);
            }
            i += 1;
        }
        None
    }

    /// The record on file for `domain`, if there is one.
    pub fn record_for(&self, domain: &String) -> (r: Option<&TrustRecord>)
        requires
            self.wf(),
        ensures
            r is Some <==> self@.dom().contains(domain@),
            r matches Some(record) ==> record.domain@ == domain@ && record.certificate@
                == self@[domain@] && record.sound(),
    {
        match self.place(domain) {
            Some(at) => Some(&self.records[at]),
            None => None,
        }
    }

    /// Puts a certificate read from persistent storage on file under
    /// `domain`, in place of any that was there. Nothing is filed, and
    /// `false` returned, where the certificate does not parse.
    pub fn load(&mut self, domain: String, certificate: Vec<u8>) -> (filed: bool)
        requires
            old(self).wf(),
        ensures
            final(self).wf(),
            filed == x509_parses(certificate@),
            filed ==> final(self)@ == old(self)@.insert(domain@, certificate@),
            !filed ==> final(self)@ == old(self)@,
    {
        let facts = match inspect_certificate(&certificate) {
            Some(facts) => facts,
            None => {
                return false;
            },
        };
        let at = self.place(&domain);
        let record = TrustRecord {
            domain,
            certificate,
            not_before: facts.not_before,
            not_after: facts.not_after,
            public_key: facts.public_key,
        };
        self.file(at, record);
        true
    }

    fn file(&mut self, at: Option<usize>, record: TrustRecord)
        requires
            old(self).wf(),
            record.sound(),
            at is Some <==> filed_under(old(self).records@, record.domain@),
            at matches Some(i) ==> i < old(self).records@.len() && old(self).records@[i as int].domain@
                == record.domain@,
        ensures
            final(self).wf(),
            final(self)@ == old(self)@.insert(record.domain@, record.certificate@),
    {
        proof {
            match at {
                Some(i) => lemma_file_again(self.records@, i as int, record),
                None => lemma_file_new(self.records@, record),
            }
        }
        match at {
            Some(i) => {
                self.records.set(i, record);
            },
            None => {
                self.records.push(record);
            },
        }
    }
}

/// Judges a certificate presented by a peer at time `now`, and remembers
/// it where the verdict is new trust or a renewal.
///
/// The verdict says why: a certificate is refused when it does not parse,
/// is outside its validity window, names no domain, or carries another
/// key than the one on file for its domain. A still-valid record is never
/// overwritten.
pub fn tofu_handle_certificate(store: &mut TrustStore, cert_der: &Vec<u8>, now: i64) -> (verdict:
    Verdict)
    requires
        old(store).wf(),
    ensures
        final(store).wf(),
        verdict == verdict_for(old(store)@, cert_der@, now),
        final(store)@ == store_after(old(store)@, cert_der@, now),
{
    let facts = match inspect_certificate(cert_der) {
        Some(facts) => facts,
        None => {
            return Verdict::Reject { reason: RejectReason::InvalidCertificate };
        },
    };
    let domain = match &facts.domain {
        Some(domain) => domain.clone(),
        None => {
            return decide(&facts, None, now);
        },
    };
    let at = store.place(&domain);
    let verdict = match at {
        Some(i) => decide(&facts, Some(&store.records[i]), now),
        None => decide(&facts, None, now),
    };
    match verdict {
        Verdict::Accept { kind: AcceptKind::NewTrust } | Verdict::Accept {
            kind: AcceptKind::Renewed,
        } => {
            let record = TrustRecord {
                domain,
                certificate: cert_der.clone(),
                not_before: facts.not_before,
                not_after: facts.not_after,
                public_key: facts.public_key,
            };
            store.file(at, record);
        },
        _ => {},
    }
    verdict
}

/// First use: a certificate that parses, holds at `now` and names a domain
/// the store does not know is accepted as new trust and put on file.
pub proof fn lemma_first_use(store: Map<Seq<char>, Seq<u8>>, der: Seq<u8>, now: i64)
    requires
        x509_parses(der),
        window_holds(x509_validity(der).0, x509_validity(der).1, now),
        x509_common_name(der) matches Some(domain) && !store.dom().contains(domain),
    ensures
        verdict_for(store, der, now) == (Verdict::Accept { kind: AcceptKind::NewTrust }),
        store_after(store, der, now) == store.insert(x509_common_name(der)->0, der),
{
}

/// A refusal or a confirmation leaves the store as it was; only new trust
/// and renewal write, and they write the presented certificate under its
/// own domain.
pub proof fn lemma_store_changes(store: Map<Seq<char>, Seq<u8>>, der: Seq<u8>, now: i64)
    ensures
        verdict_for(store, der, now) is Reject ==> store_after(store, der, now) == store,
        verdict_for(store, der, now) == (Verdict::Accept { kind: AcceptKind::Confirmed })
            ==> store_after(store, der, now) == store,
        verdict_writes(verdict_for(store, der, now)) ==> x509_common_name(der) is Some
            && store_after(store, der, now) == store.insert(x509_common_name(der)->0, der),
        forall|domain: Seq<char>|
            store.dom().contains(domain) ==> #[trigger] store_after(store, der, now).dom().contains(
                domain,
            ),
{
}

/// A record that still holds is never overwritten: whatever is presented,
/// the certificate on file for a domain stays while its window holds.
pub proof fn lemma_valid_record_stays(
    store: Map<Seq<char>, Seq<u8>>,
    der: Seq<u8>,
    now: i64,
    domain: Seq<char>,
)
    requires
        store.dom().contains(domain),
        window_holds(x509_validity(store[domain]).0, x509_validity(store[domain]).1, now),
    ensures
        store_after(store, der, now).dom().contains(domain),
        store_after(store, der, now)[domain] == store[domain],
{
}

/// The life of a trust record. A certificate for an unknown domain is
/// trusted anew and put on file. Presented again while it holds, it is
/// confirmed and the store stays as it is. A certificate for the same
/// domain with another key, while the first still holds, is refused as a
/// key mismatch and the store stays as it is. Once the first has expired,
/// a certificate for the domain with the same key is accepted as a renewal
/// and takes its place.
pub proof fn lemma_tofu_sequence(
    store: Map<Seq<char>, Seq<u8>>,
    domain: Seq<char>,
    first: Seq<u8>,
    other: Seq<u8>,
    renewal: Seq<u8>,
    t1: i64,
    t2: i64,
    t3: i64,
    t4: i64,
)
    requires
        !store.dom().contains(domain),
        x509_parses(first) && x509_common_name(first) == Some(domain),
        x509_parses(other) && x509_common_name(other) == Some(domain),
        x509_parses(renewal) && x509_common_name(renewal) == Some(domain),
        x509_public_key(other) != x509_public_key(first),
        x509_public_key(renewal) == x509_public_key(first),
        window_holds(x509_validity(first).0, x509_validity(first).1, t1),
        window_holds(x509_validity(first).0, x509_validity(first).1, t2),
        window_holds(x509_validity(first).0, x509_validity(first).1, t3),
        window_holds(x509_validity(other).0, x509_validity(other).1, t3),
        !window_holds(x509_validity(first).0, x509_validity(first).1, t4),
        window_holds(x509_validity(renewal).0, x509_validity(renewal).1, t4),
    ensures
        ({
            let s1 = store_after(store, first, t1);
            let s2 = store_after(s1, first, t2);
            let s3 = store_after(s2, other, t3);
            let s4 = store_after(s3, renewal, t4);
            &&& verdict_for(store, first, t1) == (Verdict::Accept { kind: AcceptKind::NewTrust })
            &&& s1 == store.insert(domain, first)
            &&& verdict_for(s1, first, t2) == (Verdict::Accept { kind: AcceptKind::Confirmed })
            &&& s2 == s1
            &&& verdict_for(s2, other, t3) == (Verdict::Reject {
                reason: RejectReason::KeyMismatch,
            })
            &&& s3 == s2
            &&& verdict_for(s3, renewal, t4) == (Verdict::Accept { kind: AcceptKind::Renewed })
            &&& s4 == s3.insert(domain, renewal)
            &&& s4[domain] == renewal
        }),
{
    let s1 = store_after(store, first, t1);
    assert(s1 == store.insert(domain, first));
    assert(s1.dom().contains(domain) && s1[domain] == first);
}

/// Once the record on file has expired, a certificate for its domain with
/// another key is refused as a key mismatch on renewal, and the store
/// stays as it is.
pub proof fn lemma_mismatch_on_renewal(
    store: Map<Seq<char>, Seq<u8>>,
    der: Seq<u8>,
    now: i64,
)
    requires
        x509_parses(der),
        window_holds(x509_validity(der).0, x509_validity(der).1, now),
        x509_common_name(der) matches Some(domain) && store.dom().contains(domain) && !window_holds(
            x509_validity(store[domain]).0,
            x509_validity(store[domain]).1,
            now,
        ) && x509_public_key(store[domain]) != x509_public_key(der),
    ensures
        verdict_for(store, der, now) == (Verdict::Reject {
            reason: RejectReason::KeyMismatchOnRenewal,
        }),
        store_after(store, der, now) == store,
{
}

} // verus!
