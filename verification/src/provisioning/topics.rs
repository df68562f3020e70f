use vstd::prelude::*;
use vstd::string::*;
use vstd::utf8::*;
use super::Error;
use mqttrust::{Mqtt, MqttError, QoS, SubscribeTopic};

verus! {

/// Who speaks on a topic: the cloud (`Incoming`) or the device (`Outgoing`).
#[derive(Debug, Clone, Copy, PartialEq, Eq, Structural)]
pub enum Direction {
    Incoming,
    Outgoing,
}

/// The encoding of the payloads on a topic.
#[derive(Debug, Clone, Copy, PartialEq, Eq, Structural)]
pub enum PayloadFormat {
    Cbor,
    Json,
}

impl PayloadFormat {
    /// The topic segment that stands for this encoding.
    pub open spec fn segment(self) -> Seq<char> {
        match self {
            PayloadFormat::Cbor => "cbor"@,
            PayloadFormat::Json => "json"@,
        }
    }

    pub fn to_topic_segment(&self) -> (r: &'static str)
        ensures
            r@ == self.segment(),
    {
        match self {
            PayloadFormat::Cbor => "cbor",
            PayloadFormat::Json => "json",
        }
    }

    pub fn from_topic_segment(s: &str) -> (r: Result<PayloadFormat, Error>)
        ensures
            match r {
                Ok(f) => s@ == f.segment(),
                Err(e) => e == Error::UnknownFormat && s@ != "cbor"@ && s@ != "json"@,
            },
    {
        if str_eq(s, "cbor") {
            Ok(PayloadFormat::Cbor)
        } else if str_eq(s, "json") {
            Ok(PayloadFormat::Json)
        } else {
            Err(Error::UnknownFormat)
        }
    }
}

impl core::str::FromStr for PayloadFormat {
    type Err = ();

    /// Reads a payload format from its topic segment; any other text is
    /// refused.
    fn from_str(s: &str) -> (r: Result<Self, ()>)
        ensures
            match r {
                Ok(f) => s@ == f.segment(),
                Err(_) => s@ != "cbor"@ && s@ != "json"@,
            },
    {
        match PayloadFormat::from_topic_segment(s) {
            Ok(f) => Ok(f),
            Err(_) => Err(()),
        }
    }
}

/// Whether two strings hold the same text.
pub fn str_eq(a: &str, b: &str) -> (r: bool)
    ensures
        r == (a@ == b@),
{
    let x = a.as_bytes();
    let y = b.as_bytes();
    proof {
        encode_utf8_decode_utf8(a@);
        encode_utf8_decode_utf8(b@);
    }
    if x.len() != y.len() {
        return false;
    }
    let mut i: usize = 0;
    while i < x.len()
        invariant
            x@.len() == y@.len(),
            a@ == b@ ==> x@ == y@,
            x@ == y@ ==> a@ == b@,
            i <= x@.len(),
            forall|j: int| 0 <= j < i ==> x@[j] == y@[j],
        decreases x@.len() - i,
    {
        if x[i] != y[i] {
            assert(x@[i as int] != y@[i as int]);
            return false;
        }
        i += 1;
    }
    assert(x@ =~= y@);
    true
}

/// Whether `lit` stands in `s` at character `at`; `n` is the length of `s` in characters.
fn has_at(s: &str, n: usize, at: usize, lit: &str) -> (r: bool)
    requires
        n == s@.len(),
        at <= n,
    ensures
        r == (at + lit@.len() <= n && s@.subrange(at as int, at + lit@.len()) == lit@),
{
    let m = lit.unicode_len();
    if m > n - at {
        return false;
    }
    let mut j: usize = 0;
    while j < m
        invariant
            m == lit@.len(),
            n == s@.len(),
            at + m <= n,
            j <= m,
            forall|k: int| 0 <= k < j ==> s@[at + k] == lit@[k],
        decreases m - j,
    {
        if s.get_char(at + j) != lit.get_char(j) {
            assert(s@.subrange(at as int, at + m)[j as int] != lit@[j as int]);
            return false;
        }
        j += 1;
    }
    assert(s@.subrange(at as int, at + m) =~= lit@);
    true
}

/// A text without `/` can be one segment of a topic.
pub open spec fn slash_free(name: Seq<char>) -> bool {
    forall|i: int| 0 <= i < name.len() ==> name[i] != '/'
}

/// Whether no `/` stands in `s` from character `from` up to `to`.
fn no_slash_between(s: &str, from: usize, to: usize) -> (r: bool)
    requires
        from <= to <= s@.len(),
    ensures
        r == slash_free(s@.subrange(from as int, to as int)),
{
    let mut j: usize = from;
    while j < to
        invariant
            from <= j <= to <= s@.len(),
            forall|k: int| from <= k < j ==> s@[k] != '/',
        decreases to - j,
    {
        if s.get_char(j) == '/' {
            assert(s@.subrange(from as int, to as int)[j - from] == '/');
            return false;
        }
        j += 1;
    }
    true
}

/// The three requests of fleet provisioning.
pub ghost enum Operation {
    /// Register a thing from the template of the given name.
    RegisterThing(Seq<char>),
    CreateKeysAndCertificate,
    CreateCertificateFromCsr,
}

/// A topic carries a request or one of the two answers to it.
#[derive(Debug, Clone, Copy, PartialEq, Eq, Structural)]
pub enum Stage {
    Request,
    Accepted,
    Rejected,
}

/// What a topic says: the operation, the encoding of its payloads, and
/// whether it carries the request or an answer.
pub ghost struct TopicModel {
    pub operation: Operation,
    pub format: PayloadFormat,
    pub stage: Stage,
}

/// The start of every topic of the certificate operations.
pub open spec fn cert_prefix() -> Seq<char> {
    "$aws/certificates"@
}

/// The start of every topic of the provisioning templates.
pub open spec fn provisioning_prefix() -> Seq<char> {
    "$aws/provisioning-templates"@
}

/// The number of bytes that a text takes as UTF-8.
pub open spec fn byte_len(text: Seq<char>) -> nat {
    encode_utf8(text).len()
}

impl TopicModel {
    /// Requests go out, answers come in.
    pub open spec fn direction(self) -> Direction {
        if self.stage == Stage::Request {
            Direction::Outgoing
        } else {
            Direction::Incoming
        }
    }

    /// The part of the path before the payload format.
    pub open spec fn head(self) -> Seq<char> {
        match self.operation {
            Operation::RegisterThing(name) => provisioning_prefix() + "/"@ + name + "/provision/"@,
            Operation::CreateKeysAndCertificate => cert_prefix() + "/create/"@,
            Operation::CreateCertificateFromCsr => cert_prefix() + "/create-from-csr/"@,
        }
    }

    /// The part of the path after the payload format.
    pub open spec fn tail(self) -> Seq<char> {
        match self.stage {
            Stage::Request => Seq::<char>::empty(),
            Stage::Accepted => "/accepted"@,
            Stage::Rejected => "/rejected"@,
        }
    }

    /// The topic's path on the wire.
    pub open spec fn path(self) -> Seq<char> {
        self.head() + self.format.segment() + self.tail()
    }

    /// The topics that a path can be read back from: the answers, with a
    /// template name that is a single segment.
    pub open spec fn parseable(self) -> bool {
        &&& self.direction() == Direction::Incoming
        &&& match self.operation {
            Operation::RegisterThing(name) => slash_free(name),
            _ => true,
        }
    }
}

/// What reading a path gives: the parseable topic that has this path, or
/// nothing where no parseable topic has it.
pub open spec fn reads_as(s: Seq<char>, r: Option<TopicModel>) -> bool {
    match r {
        Some(t) => t.parseable() && t.path() == s,
        None => forall|t: TopicModel| t.parseable() ==> t.path() != s,
    }
}

/// The parseable topic that has the path `s`, if there is one.
pub open spec fn reading(s: Seq<char>) -> Option<TopicModel> {
    if exists|t: TopicModel| t.parseable() && t.path() == s {
        Some(choose|t: TopicModel| t.parseable() && t.path() == s)
    } else {
        None
    }
}

/// Where the parts of a parseable topic stand in its path.
pub proof fn lemma_path_parts(t: TopicModel)
    requires
        t.parseable(),
    ensures
        ({
            let p = t.path();
            let n = p.len() as int;
            &&& n >= 38
            &&& p.subrange(n - 9, n) == t.tail()
            &&& p.subrange(n - 13, n - 9) == t.format.segment()
            &&& match t.operation {
                Operation::CreateKeysAndCertificate => {
                    &&& n == 38
                    &&& p.subrange(0, 17) == cert_prefix()
                    &&& p.subrange(17, 25) == "/create/"@
                },
                Operation::CreateCertificateFromCsr => {
                    &&& n == 47
                    &&& p.subrange(0, 17) == cert_prefix()
                    &&& p.subrange(17, 34) == "/create-from-csr/"@
                },
                Operation::RegisterThing(name) => {
                    &&& n == 52 + name.len()
                    &&& p.subrange(0, 27) == provisioning_prefix()
                    &&& p.subrange(27, 28) == "/"@
                    &&& p.subrange(28, n - 24) == name
                    &&& p.subrange(n - 24, n - 13) == "/provision/"@
                },
            }
        }),
{
    reveal_strlit("$aws/certificates");
    reveal_strlit("$aws/provisioning-templates");
    reveal_strlit("/");
    reveal_strlit("/provision/");
    reveal_strlit("/create/");
    reveal_strlit("/create-from-csr/");
    reveal_strlit("/accepted");
    reveal_strlit("/rejected");
    reveal_strlit("cbor");
    reveal_strlit("json");
    let p = t.path();
    let n = p.len() as int;
    assert(p.subrange(n - 9, n) =~= t.tail());
    assert(p.subrange(n - 13, n - 9) =~= t.format.segment());
    match t.operation {
        Operation::CreateKeysAndCertificate => {
            assert(p.subrange(0, 17) =~= cert_prefix());
            assert(p.subrange(17, 25) =~= "/create/"@);
        },
        Operation::CreateCertificateFromCsr => {
            assert(p.subrange(0, 17) =~= cert_prefix());
            assert(p.subrange(17, 34) =~= "/create-from-csr/"@);
        },
        Operation::RegisterThing(name) => {
            assert(p.subrange(0, 27) =~= provisioning_prefix());
            assert(p.subrange(27, 28) =~= "/"@);
            assert(p.subrange(28, n - 24) =~= name);
            assert(p.subrange(n - 24, n - 13) =~= "/provision/"@);
        },
    }
}

/// A topic of fleet provisioning.
#[derive(Debug, Clone, PartialEq)]
pub enum Topic<'a> {
    /// `$aws/provisioning-templates/<templateName>/provision/<payloadFormat>`
    RegisterThing(&'a str, PayloadFormat),
    /// `$aws/certificates/create/<payloadFormat>`
    CreateKeysAndCertificate(PayloadFormat),
    /// `$aws/certificates/create-from-csr/<payloadFormat>`
    CreateCertificateFromCsr(PayloadFormat),
    /// `$aws/provisioning-templates/<templateName>/provision/<payloadFormat>/accepted`
    RegisterThingAccepted(&'a str, PayloadFormat),
    /// `$aws/provisioning-templates/<templateName>/provision/<payloadFormat>/rejected`
    RegisterThingRejected(&'a str, PayloadFormat),
    /// `$aws/certificates/create/<payloadFormat>/accepted`
    CreateKeysAndCertificateAccepted(PayloadFormat),
    /// `$aws/certificates/create/<payloadFormat>/rejected`
    CreateKeysAndCertificateRejected(PayloadFormat),
    /// `$aws/certificates/create-from-csr/<payloadFormat>/accepted`
    CreateCertificateFromCsrAccepted(PayloadFormat),
    /// `$aws/certificates/create-from-csr/<payloadFormat>/rejected`
    CreateCertificateFromCsrRejected(PayloadFormat),
}

impl<'a> View for Topic<'a> {
    type V = TopicModel;

    open spec fn view(&self) -> TopicModel {
        match *self {
            Topic::RegisterThing(name, format) => TopicModel {
                operation: Operation::RegisterThing(name@),
                format,
                stage: Stage::Request,
            },
            Topic::CreateKeysAndCertificate(format) => TopicModel {
                operation: Operation::CreateKeysAndCertificate,
                format,
                stage: Stage::Request,
            },
            Topic::CreateCertificateFromCsr(format) => TopicModel {
                operation: Operation::CreateCertificateFromCsr,
                format,
                stage: Stage::Request,
            },
            Topic::RegisterThingAccepted(name, format) => TopicModel {
                operation: Operation::RegisterThing(name@),
                format,
                stage: Stage::Accepted,
            },
            Topic::RegisterThingRejected(name, format) => TopicModel {
                operation: Operation::RegisterThing(name@),
                format,
                stage: Stage::Rejected,
            },
            Topic::CreateKeysAndCertificateAccepted(format) => TopicModel {
                operation: Operation::CreateKeysAndCertificate,
                format,
                stage: Stage::Accepted,
            },
            Topic::CreateKeysAndCertificateRejected(format) => TopicModel {
                operation: Operation::CreateKeysAndCertificate,
                format,
                stage: Stage::Rejected,
            },
            Topic::CreateCertificateFromCsrAccepted(format) => TopicModel {
                operation: Operation::CreateCertificateFromCsr,
                format,
                stage: Stage::Accepted,
            },
            Topic::CreateCertificateFromCsrRejected(format) => TopicModel {
                operation: Operation::CreateCertificateFromCsr,
                format,
                stage: Stage::Rejected,
            },
        }
    }
}

/// What a topic that was read, or none, says.
pub open spec fn model_of<'a>(r: Option<Topic<'a>>) -> Option<TopicModel> {
    match r {
        Some(t) => Some(t@),
        None => None,
    }
}

impl<'a> Topic<'a> {
    /// A cheap test before parsing: whether `s` starts like a topic of
    /// fleet provisioning.
    pub fn check(s: &'a str) -> (r: bool)
        ensures
            r == (cert_prefix().is_prefix_of(s@) || provisioning_prefix().is_prefix_of(s@)),
    {
        let n = s.unicode_len();
        has_at(s, n, 0, "$aws/certificates") || has_at(s, n, 0, "$aws/provisioning-templates")
    }

    /// Reads an answer topic back from its path. The path must be that of
    /// a parseable topic, to the last character.
    pub fn from_str(s: &'a str) -> (r: Option<Self>)
        ensures
            reads_as(s@, model_of(r)),
            model_of(r) == reading(s@),
    {
        let r = Self::parse(s);
        proof {
            reads_as_its_reading(s@, model_of(r));
        }
        r
    }

    /// Matches a path against the six shapes of an answer topic.
    fn parse(s: &'a str) -> (r: Option<Self>)
        ensures
            reads_as(s@, model_of(r)),
    {
        let n = s.unicode_len();
        if n < 38 {
            proof {
                assert forall|t: TopicModel| t.parseable() implies t.path() != s@ by {
                    lemma_path_parts(t);
                }
            }
            return None;
        }
        proof {
            reveal_strlit("$aws/certificates");
            reveal_strlit("$aws/provisioning-templates");
            reveal_strlit("/");
            reveal_strlit("/provision/");
            reveal_strlit("/create/");
            reveal_strlit("/create-from-csr/");
            reveal_strlit("/accepted");
            reveal_strlit("/rejected");
            reveal_strlit("cbor");
            reveal_strlit("json");
        }
        let h: usize = n - 13;
        let accepted = has_at(s, n, n - 9, "/accepted");
        let rejected = has_at(s, n, n - 9, "/rejected");
        let cert = has_at(s, n, 0, "$aws/certificates");
        let create = h == 25 && cert && has_at(s, n, 17, "/create/");
        let from_csr = h == 34 && cert && has_at(s, n, 17, "/create-from-csr/");
        let register = h >= 39 && has_at(s, n, 0, "$aws/provisioning-templates") && has_at(
            s,
            n,
            27,
            "/",
        ) && has_at(s, n, h - 11, "/provision/") && no_slash_between(s, 28, h - 11);
        if !(accepted || rejected) || !(create || from_csr || register) {
            proof {
                assert forall|t: TopicModel| t.parseable() implies t.path() != s@ by {
                    lemma_path_parts(t);
                }
            }
            return None;
        }
        let format = match PayloadFormat::from_topic_segment(s.substring_char(h, n - 9)) {
            Ok(f) => f,
            Err(_) => {
                proof {
                    assert forall|t: TopicModel| t.parseable() implies t.path() != s@ by {
                        lemma_path_parts(t);
                    }
                }
                return None;
            },
        };
        let topic = if create {
            if accepted {
                Topic::CreateKeysAndCertificateAccepted(format)
            } else {
                Topic::CreateKeysAndCertificateRejected(format)
            }
        } else if from_csr {
            if accepted {
                Topic::CreateCertificateFromCsrAccepted(format)
            } else {
                Topic::CreateCertificateFromCsrRejected(format)
            }
        } else {
            let name = s.substring_char(28, h - 11);
            if accepted {
                Topic::RegisterThingAccepted(name, format)
            } else {
                Topic::RegisterThingRejected(name, format)
            }
        };
        proof {
            let m = n as int;
            let k = h as int;
            assert(s@ =~= s@.subrange(0, k) + s@.subrange(k, m - 9) + s@.subrange(m - 9, m));
            if create {
                assert(s@.subrange(0, k) =~= s@.subrange(0, 17) + s@.subrange(17, 25));
            } else if from_csr {
                assert(s@.subrange(0, k) =~= s@.subrange(0, 17) + s@.subrange(17, 34));
            } else {
                assert(s@.subrange(0, k) =~= s@.subrange(0, 27) + s@.subrange(27, 28)
                    + s@.subrange(28, k - 11) + s@.subrange(k - 11, k));
            }
            assert(topic@.path() =~= s@);
        }
        Some(topic)
    }

    /// Requests go out to the cloud, answers come in from it.
    pub fn direction(&self) -> (r: Direction)
        ensures
            r == self@.direction(),
    {
        match self {
            Topic::RegisterThing(_, _)
            | Topic::CreateKeysAndCertificate(_)
            | Topic::CreateCertificateFromCsr(_) => Direction::Outgoing,
            _ => Direction::Incoming,
        }
    }

    /// The encoding of the payloads on this topic.
    pub fn payload_format(&self) -> (r: PayloadFormat)
        ensures
            r == self@.format,
    {
        match self {
            Topic::RegisterThing(_, f)
            | Topic::RegisterThingAccepted(_, f)
            | Topic::RegisterThingRejected(_, f)
            | Topic::CreateKeysAndCertificate(f)
            | Topic::CreateKeysAndCertificateAccepted(f)
            | Topic::CreateKeysAndCertificateRejected(f)
            | Topic::CreateCertificateFromCsr(f)
            | Topic::CreateCertificateFromCsrAccepted(f)
            | Topic::CreateCertificateFromCsrRejected(f) => *f,
        }
    }

    /// Whether this topic carries a request or one of its answers.
    pub fn stage(&self) -> (r: Stage)
        ensures
            r == self@.stage,
    {
        match self {
            Topic::RegisterThing(_, _)
            | Topic::CreateKeysAndCertificate(_)
            | Topic::CreateCertificateFromCsr(_) => Stage::Request,
            Topic::RegisterThingAccepted(_, _)
            | Topic::CreateKeysAndCertificateAccepted(_)
            | Topic::CreateCertificateFromCsrAccepted(_) => Stage::Accepted,
            _ => Stage::Rejected,
        }
    }

    /// Writes the topic's path. `L` is the size in bytes of the buffer that
    /// the path is meant for: a longer path is an overflow.
    pub fn format<const L: usize>(&self) -> (r: Result<String, Error>)
        ensures
            match r {
                Ok(p) => p@ == self@.path() && byte_len(p@) <= L,
                Err(e) => e == Error::Overflow && byte_len(self@.path()) > L,
            },
    {
        let mut p = String::new();
        match self {
            Topic::RegisterThing(name, _)
            | Topic::RegisterThingAccepted(name, _)
            | Topic::RegisterThingRejected(name, _) => {
                p.append("$aws/provisioning-templates");
                p.append("/");
                p.append(name);
                p.append("/provision/");
            },
            Topic::CreateKeysAndCertificate(_)
            | Topic::CreateKeysAndCertificateAccepted(_)
            | Topic::CreateKeysAndCertificateRejected(_) => {
                p.append("$aws/certificates");
                p.append("/create/");
            },
            _ => {
                p.append("$aws/certificates");
                p.append("/create-from-csr/");
            },
        }
        assert(p@ =~= self@.head());
        p.append(self.payload_format().to_topic_segment());
        match self.stage() {
            Stage::Request => {},
            Stage::Accepted => {
                p.append("/accepted");
            },
            Stage::Rejected => {
                p.append("/rejected");
            },
        }
        assert(p@ =~= self@.path());
        if p.as_str().as_bytes().len() <= L {
            Ok(p)
        } else {
            Err(Error::Overflow)
        }
    }
}

/// Two parseable topics with one path are the same topic.
pub proof fn lemma_path_injective(t: TopicModel, u: TopicModel)
    requires
        t.parseable(),
        u.parseable(),
        t.path() == u.path(),
    ensures
        t == u,
{
    lemma_path_parts(t);
    lemma_path_parts(u);
    reveal_strlit("/accepted");
    reveal_strlit("/rejected");
    reveal_strlit("cbor");
    reveal_strlit("json");
    assert("/accepted"@[1] != "/rejected"@[1]);
    assert("cbor"@[0] != "json"@[0]);
    assert(t.tail() == u.tail());
    assert(t.stage == u.stage);
    assert(t.format.segment() == u.format.segment());
    assert(t.format == u.format);
    match (t.operation, u.operation) {
        (Operation::RegisterThing(a), Operation::RegisterThing(b)) => {
            assert(a == b);
        },
        _ => {},
    }
}

/// Round trip: reading the path of a parseable topic gives that topic back.
pub proof fn format_then_from_str(t: TopicModel, r: Option<TopicModel>)
    requires
        t.parseable(),
        reads_as(t.path(), r),
    ensures
        r == Some(t),
{
    match r {
        Some(u) => {
            lemma_path_injective(t, u);
        },
        None => {},
    }
}

/// Reading a path has one answer only.
pub proof fn from_str_is_a_function(s: Seq<char>, q: Option<TopicModel>, r: Option<TopicModel>)
    requires
        reads_as(s, q),
        reads_as(s, r),
    ensures
        q == r,
{
    match (q, r) {
        (Some(t), Some(u)) => {
            lemma_path_injective(t, u);
        },
        _ => {},
    }
}

/// What a path reads as is its reading, and nothing else.
pub proof fn reads_as_its_reading(s: Seq<char>, r: Option<TopicModel>)
    ensures
        reads_as(s, r) <==> r == reading(s),
{
    if reads_as(s, r) {
        match (r, reading(s)) {
            (Some(t), Some(u)) => {
                lemma_path_injective(t, u);
            },
            _ => {},
        }
    }
}

/// The path of every topic passes the prefix test.
pub proof fn path_passes_check(t: TopicModel)
    ensures
        cert_prefix().is_prefix_of(t.path()) || provisioning_prefix().is_prefix_of(t.path()),
{
    match t.operation {
        Operation::RegisterThing(_) => {
            assert(t.path().subrange(0, provisioning_prefix().len() as int)
                =~= provisioning_prefix());
        },
        _ => {
            assert(t.path().subrange(0, cert_prefix().len() as int) =~= cert_prefix());
        },
    }
}

/// The quality of service of the MQTT client, carried through unopened.
#[verifier::external_type_specification]
#[verifier::external_body]
pub struct ExQoS(QoS);

impl<'a> Topic<'a> {
    /// The template's name, where the topic is one of thing registration.
    pub fn template_name(&self) -> (r: Option<&'a str>)
        ensures
            match self@.operation {
                Operation::RegisterThing(name) => r matches Some(n) && n@ == name,
                _ => r is None,
            },
    {
        match self {
            Topic::RegisterThing(name, _)
            | Topic::RegisterThingAccepted(name, _)
            | Topic::RegisterThingRejected(name, _) => Some(*name),
            _ => None,
        }
    }

    /// Whether the topic is one of the certificate from a signing request.
    fn is_from_csr(&self) -> (r: bool)
        ensures
            r == (self@.operation == Operation::CreateCertificateFromCsr),
    {
        match self {
            Topic::CreateCertificateFromCsr(_)
            | Topic::CreateCertificateFromCsrAccepted(_)
            | Topic::CreateCertificateFromCsrRejected(_) => true,
            _ => false,
        }
    }

    /// Whether two topics say the same.
    pub fn same(&self, other: &Topic<'_>) -> (r: bool)
        ensures
            r == (self@ == other@),
    {
        if self.stage() != other.stage() || self.payload_format() != other.payload_format() {
            return false;
        }
        match (self.template_name(), other.template_name()) {
            (Some(a), Some(b)) => str_eq(a, b),
            (None, None) => self.is_from_csr() == other.is_from_csr(),
            _ => false,
        }
    }
}

/// How many topics one call of the MQTT client takes at most.
pub const BATCH: usize = 5;

/// What a builder may hold: at most `cap` topics, all incoming, none twice.
pub open spec fn well_listed(topics: Seq<TopicModel>, cap: nat) -> bool {
    &&& topics.len() <= cap
    &&& forall|i: int| 0 <= i < topics.len() ==> (#[trigger] topics[i]).direction() == Direction::Incoming
    &&& forall|i: int, j: int| 0 <= i < j < topics.len() ==> topics[i] != topics[j]
}

/// Whether a builder that holds `topics` takes `t` in: it is incoming, not
/// yet there, and there is room.
pub open spec fn takes_in(topics: Seq<TopicModel>, t: TopicModel, cap: nat) -> bool {
    &&& t.direction() == Direction::Incoming
    &&& !topics.contains(t)
    &&& topics.len() < cap
}

/// The list of topics after `t` was offered to a builder that held `topics`.
pub open spec fn offered(topics: Seq<TopicModel>, t: TopicModel, cap: nat) -> Seq<TopicModel> {
    if takes_in(topics, t, cap) {
        topics.push(t)
    } else {
        topics
    }
}

/// Directionality: an outgoing topic leaves the list as it was.
pub proof fn outgoing_is_ignored(topics: Seq<TopicModel>, t: TopicModel, cap: nat)
    requires
        t.direction() == Direction::Outgoing,
    ensures
        offered(topics, t, cap) == topics,
{
}

/// Deduplication: a topic offered a second time changes nothing, so it is
/// listed once at most.
pub proof fn offered_twice(topics: Seq<TopicModel>, t: TopicModel, cap: nat)
    requires
        well_listed(topics, cap),
    ensures
        offered(offered(topics, t, cap), t, cap) == offered(topics, t, cap),
        forall|i: int, j: int|
            0 <= i < j < offered(topics, t, cap).len() ==> !(offered(topics, t, cap)[i] == t
                && offered(topics, t, cap)[j] == t),
{
    if takes_in(topics, t, cap) {
        assert(topics.push(t)[topics.len() as int] == t);
    }
    offered_stays_well_listed(topics, t, cap);
}

/// Capacity: whatever is offered, the list stays within its bound, holds
/// incoming topics only and none twice; what was listed stays, in its place.
pub proof fn offered_stays_well_listed(topics: Seq<TopicModel>, t: TopicModel, cap: nat)
    requires
        well_listed(topics, cap),
    ensures
        well_listed(offered(topics, t, cap), cap),
        topics.is_prefix_of(offered(topics, t, cap)),
        topics.len() == cap ==> offered(topics, t, cap) == topics,
{
    let after = offered(topics, t, cap);
    if takes_in(topics, t, cap) {
        assert forall|i: int, j: int| 0 <= i < j < after.len() implies after[i] != after[j] by {
            if j == topics.len() {
                assert(topics.contains(topics[i]));
            }
        }
    }
    assert(topics =~= after.subrange(0, topics.len() as int));
}

/// The ranges of the batches that `len` topics are sent in: each the next
/// `BATCH` of them, the last one what is left.
pub open spec fn batch_ranges(len: nat) -> Seq<(usize, usize)> {
    Seq::new(
        (len + 4) / 5,
        |k: int| ((5 * k) as usize, (if 5 * k + 5 <= len { 5 * k + 5 } else { len as int }) as usize),
    )
}

/// Batching: the batches follow one another from the first topic to the
/// last, each of `BATCH` topics but the last, which holds what is left and
/// is not empty.
pub proof fn batches_tile(len: nat, k: int)
    requires
        len <= usize::MAX,
        0 <= k < batch_ranges(len).len(),
    ensures
        ({
            let r = batch_ranges(len);
            &&& r[k].0 == 5 * k
            &&& r[k].0 < r[k].1 <= len
            &&& k + 1 < r.len() ==> r[k].1 == r[k].0 + 5 && r[k + 1].0 == r[k].1
            &&& k + 1 == r.len() ==> r[k].1 == len && r[k].1 - r[k].0 <= 5
        }),
{
}

/// Cuts `len` topics into batches, in order: the start and the end of each.
pub fn batches(len: usize) -> (r: Vec<(usize, usize)>)
    ensures
        r@ == batch_ranges(len as nat),
{
    let mut r: Vec<(usize, usize)> = Vec::new();
    let mut from: usize = 0;
    while from < len
        invariant
            from <= len,
            from < len ==> from == 5 * r@.len(),
            from == len ==> r@.len() == (len + 4) / 5,
            r@.len() <= (len + 4) / 5,
            forall|k: int| 0 <= k < r@.len() ==> r@[k] == batch_ranges(len as nat)[k],
        decreases len - from,
    {
        let to: usize = if len - from > BATCH {
            from + BATCH
        } else {
            len
        };
        r.push((from, to));
        from = to;
    }
    assert(r@ =~= batch_ranges(len as nat));
    r
}

/// Collects the topics to subscribe to.
pub struct Subscribe<'a, const N: usize> {
    topics: Vec<(Topic<'a>, QoS)>,
}

impl<'a, const N: usize> View for Subscribe<'a, N> {
    type V = Seq<(TopicModel, QoS)>;

    closed spec fn view(&self) -> Seq<(TopicModel, QoS)> {
        Seq::new(self.topics@.len(), |i: int| (self.topics@[i].0@, self.topics@[i].1))
    }
}

/// Whether the path of one of the subscriptions takes more than `limit` bytes.
pub open spec fn too_long(entries: Seq<(TopicModel, QoS)>, limit: nat) -> bool {
    exists|i: int| 0 <= i < entries.len() && byte_len((#[trigger] entries[i]).0.path()) > limit
}

impl<'a, const N: usize> Default for Subscribe<'a, N> {
    fn default() -> (r: Self)
        ensures
            r.wf(),
            r@ == Seq::<(TopicModel, QoS)>::empty(),
    {
        Subscribe::new()
    }
}

impl<'a, const N: usize> Default for Unsubscribe<'a, N> {
    fn default() -> (r: Self)
        ensures
            r.wf(),
            r@ == Seq::<TopicModel>::empty(),
    {
        Unsubscribe::new()
    }
}

/// The topics of a list of subscriptions.
pub open spec fn topics_of(entries: Seq<(TopicModel, QoS)>) -> Seq<TopicModel> {
    Seq::new(entries.len(), |i: int| entries[i].0)
}

impl<'a, const N: usize> Subscribe<'a, N> {
    /// At most `N` topics, all incoming, none twice.
    pub open spec fn wf(&self) -> bool {
        well_listed(topics_of(self@), N as nat)
    }

    pub fn new() -> (r: Self)
        ensures
            r.wf(),
            r@ == Seq::<(TopicModel, QoS)>::empty(),
    {
        let r = Subscribe { topics: Vec::new() };
        assert(r@ =~= Seq::<(TopicModel, QoS)>::empty());
        r
    }

    /// Adds a topic, unless it is outgoing, already there, or one too many.
    pub fn topic(self, topic: Topic<'a>, qos: QoS) -> (r: Self)
        requires
            self.wf(),
        ensures
            r.wf(),
            r@ == if takes_in(topics_of(self@), topic@, N as nat) {
                self@.push((topic@, qos))
            } else {
                self@
            },
            topics_of(r@) == offered(topics_of(self@), topic@, N as nat),
    {
        let ghost before = topics_of(self@);
        if topic.direction() != Direction::Incoming {
            assert(topics_of(self@) =~= offered(before, topic@, N as nat));
            return self;
        }
        let mut i: usize = 0;
        while i < self.topics.len()
            invariant
                self.wf(),
                i <= self.topics@.len(),
                before == topics_of(self@),
                forall|k: int| 0 <= k < i ==> before[k] != topic@,
            decreases self.topics@.len() - i,
        {
            if self.topics[i].0.same(&topic) {
                assert(before[i as int] == topic@);
                return self;
            }
            i += 1;
        }
        if self.topics.len() >= N {
            return self;
        }
        let mut topics = self.topics;
        topics.push((topic, qos));
        let r = Subscribe { topics };
        assert(r@ =~= self@.push((topic@, qos)));
        assert(topics_of(r@) =~= before.push(topic@));
        r
    }

    /// The paths to subscribe to, in the order in which they were added.
    /// A path of more than 128 bytes is an overflow.
    pub fn topics(self) -> (r: Result<Vec<(String, QoS)>, Error>)
        requires
            self.wf(),
        ensures
            match r {
                Ok(v) => {
                    &&& v@.len() == self@.len()
                    &&& forall|i: int|
                        0 <= i < v@.len() ==> {
                            &&& (#[trigger] v@[i]).0@ == self@[i].0.path()
                            &&& v@[i].1 == self@[i].1
                            &&& byte_len(v@[i].0@) <= 128
                        }
                },
                Err(e) => e == Error::Overflow && too_long(self@, 128),
            },
    {
        let mut v: Vec<(String, QoS)> = Vec::new();
        let mut i: usize = 0;
        while i < self.topics.len()
            invariant
                i <= self.topics@.len(),
                v@.len() == i,
                forall|k: int|
                    0 <= k < i ==> {
                        &&& (#[trigger] v@[k]).0@ == self@[k].0.path()
                        &&& v@[k].1 == self@[k].1
                        &&& byte_len(v@[k].0@) <= 128
                    },
            decreases self.topics@.len() - i,
        {
            match self.topics[i].0.format::<128>() {
                Ok(p) => {
                    v.push((p, self.topics[i].1));
                },
                Err(e) => {
                    assert(byte_len(self@[i as int].0.path()) > 128);
                    return Err(e);
                },
            }
            i += 1;
        }
        Ok(v)
    }

    /// Subscribes to the topics, `BATCH` of them with each call of the
    /// client, in the order in which they were added. Nothing is sent
    /// where there is no topic, or where a path overflows; the first call
    /// that the client refuses ends the sending.
    pub fn send<M: Mqtt>(self, mqtt: &M) -> (r: Result<(), Error>)
        requires
            self.wf(),
        ensures
            self@.len() == 0 ==> r is Ok,
            too_long(self@, 128) ==> r == Err::<(), Error>(Error::Overflow),
            match r {
                Ok(_) => !too_long(self@, 128),
                Err(Error::Overflow) => too_long(self@, 128),
                Err(Error::Mqtt(_)) => self@.len() > 0 && !too_long(self@, 128),
                Err(_) => false,
            },
    {
        if self.topics.len() == 0 {
            return Ok(());
        }
        let ghost entries = self@;
        let paths = match self.topics() {
            Ok(v) => v,
            Err(e) => {
                return Err(e);
            },
        };
        proof {
            assert forall|i: int| 0 <= i < entries.len() implies byte_len(
                (#[trigger] entries[i]).0.path(),
            ) <= 128 by {
                let _ = paths@[i];
            }
        }
        let total = paths.len();
        let ranges = batches(total);
        let mut k: usize = 0;
        while k < ranges.len()
            invariant
                k <= ranges@.len(),
                total == paths@.len(),
                ranges@ == batch_ranges(paths@.len()),
                entries == self@,
                entries.len() == paths@.len() > 0,
                !too_long(entries, 128),
                forall|i: int|
                    0 <= i < paths@.len() ==> (#[trigger] paths@[i]).0@ == entries[i].0.path()
                        && paths@[i].1 == entries[i].1,
            decreases ranges@.len() - k,
        {
            let (from, to) = ranges[k];
            proof {
                batches_tile(paths@.len(), k as int);
            }
            let batch = subscriptions_between(&paths, from, to);
            // the call gets the next topics of the builder, as they were added
            assert(from == 5 * k && batch@.len() == to - from);
            assert forall|i: int| 0 <= i < batch@.len() implies (#[trigger] batch@[i]).0@
                == entries[5 * k + i].0.path() && batch@[i].1 == entries[5 * k + i].1 by {
                let _ = paths@[from + i];
            }
            match subscribe_batch(mqtt, &batch) {
                Ok(_) => {},
                Err(e) => {
                    return sent(Err(e));
                },
            }
            k += 1;
        }
        Ok(())
    }
}

/// The subscriptions of one batch: those from `from` up to `to`, each path
/// with its quality of service, in their order.
pub fn subscriptions_between<'p>(paths: &'p Vec<(String, QoS)>, from: usize, to: usize) -> (r: Vec<
    (&'p str, QoS),
>)
    requires
        from <= to <= paths@.len(),
    ensures
        r@.len() == to - from,
        forall|i: int|
            0 <= i < r@.len() ==> (#[trigger] r@[i]).0@ == paths@[from + i].0@ && r@[i].1
                == paths@[from + i].1,
{
    let mut r: Vec<(&'p str, QoS)> = Vec::new();
    let mut i: usize = from;
    while i < to
        invariant
            from <= i <= to <= paths@.len(),
            r@.len() == i - from,
            forall|k: int|
                0 <= k < r@.len() ==> (#[trigger] r@[k]).0@ == paths@[from + k].0@ && r@[k].1
                    == paths@[from + k].1,
        decreases to - i,
    {
        r.push((paths[i].0.as_str(), paths[i].1));
        i += 1;
    }
    r
}

/// The paths of one batch: those from `from` up to `to`, in their order.
pub fn paths_between<'p>(paths: &'p Vec<String>, from: usize, to: usize) -> (r: Vec<&'p str>)
    requires
        from <= to <= paths@.len(),
    ensures
        r@.len() == to - from,
        forall|i: int| 0 <= i < r@.len() ==> (#[trigger] r@[i])@ == paths@[from + i]@,
{
    let mut r: Vec<&'p str> = Vec::new();
    let mut i: usize = from;
    while i < to
        invariant
            from <= i <= to <= paths@.len(),
            r@.len() == i - from,
            forall|k: int| 0 <= k < r@.len() ==> (#[trigger] r@[k])@ == paths@[from + k]@,
        decreases to - i,
    {
        r.push(paths[i].as_str());
        i += 1;
    }
    r
}

/// What a call of the client means for the sending: its refusal is handed
/// on as an error of the MQTT layer.
pub fn sent(outcome: Result<(), MqttError>) -> (r: Result<(), Error>)
    ensures
        r == match outcome {
            Ok(_) => Ok::<(), Error>(()),
            Err(e) => Err::<(), Error>(Error::Mqtt(e)),
        },
{
    match outcome {
        Ok(_) => Ok(()),
        Err(e) => Err(Error::Mqtt(e)),
    }
}

/// Calls `Mqtt::subscribe` of the client with the topics of one batch, each
/// path with its quality of service, in the order given. What the client
/// answers is up to the client and the broker: nothing is claimed of it.
#[verifier::external_body]
fn subscribe_batch<M: Mqtt>(mqtt: &M, batch: &Vec<(&str, QoS)>) -> (r: Result<(), MqttError>)
    requires
        batch@.len() <= 5,
{
    let topics: heapless::Vec<SubscribeTopic<'_>, 5> = batch.iter().map(
        |e| SubscribeTopic { topic_path: e.0, qos: e.1 },
    ).collect();
    mqtt.subscribe(&topics)
}

/// Collects the topics to unsubscribe from.
pub struct Unsubscribe<'a, const N: usize> {
    topics: Vec<Topic<'a>>,
}

impl<'a, const N: usize> View for Unsubscribe<'a, N> {
    type V = Seq<TopicModel>;

    closed spec fn view(&self) -> Seq<TopicModel> {
        Seq::new(self.topics@.len(), |i: int| self.topics@[i]@)
    }
}

/// Whether one of the paths takes more than `limit` bytes.
pub open spec fn path_too_long(topics: Seq<TopicModel>, limit: nat) -> bool {
    exists|i: int| 0 <= i < topics.len() && byte_len((#[trigger] topics[i]).path()) > limit
}

impl<'a, const N: usize> Unsubscribe<'a, N> {
    /// At most `N` topics, all incoming, none twice.
    pub open spec fn wf(&self) -> bool {
        well_listed(self@, N as nat)
    }

    pub fn new() -> (r: Self)
        ensures
            r.wf(),
            r@ == Seq::<TopicModel>::empty(),
    {
        let r = Unsubscribe { topics: Vec::new() };
        assert(r@ =~= Seq::<TopicModel>::empty());
        r
    }

    /// Adds a topic, unless it is outgoing, already there, or one too many.
    pub fn topic(self, topic: Topic<'a>) -> (r: Self)
        requires
            self.wf(),
        ensures
            r.wf(),
            r@ == offered(self@, topic@, N as nat),
    {
        if topic.direction() != Direction::Incoming {
            return self;
        }
        let mut i: usize = 0;
        while i < self.topics.len()
            invariant
                self.wf(),
                i <= self.topics@.len(),
                forall|k: int| 0 <= k < i ==> self@[k] != topic@,
            decreases self.topics@.len() - i,
        {
            if self.topics[i].same(&topic) {
                assert(self@[i as int] == topic@);
                return self;
            }
            i += 1;
        }
        if self.topics.len() >= N {
            return self;
        }
        let mut topics = self.topics;
        topics.push(topic);
        let r = Unsubscribe { topics };
        assert(r@ =~= self@.push(topic@));
        r
    }

    /// The paths to unsubscribe from, in the order in which they were
    /// added. A path of more than 256 bytes is an overflow.
    pub fn topics(self) -> (r: Result<Vec<String>, Error>)
        requires
            self.wf(),
        ensures
            match r {
                Ok(v) => {
                    &&& v@.len() == self@.len()
                    &&& forall|i: int|
                        0 <= i < v@.len() ==> {
                            &&& (#[trigger] v@[i])@ == self@[i].path()
                            &&& byte_len(v@[i]@) <= 256
                        }
                },
                Err(e) => e == Error::Overflow && path_too_long(self@, 256),
            },
    {
        let mut v: Vec<String> = Vec::new();
        let mut i: usize = 0;
        while i < self.topics.len()
            invariant
                i <= self.topics@.len(),
                v@.len() == i,
                forall|k: int|
                    0 <= k < i ==> {
                        &&& (#[trigger] v@[k])@ == self@[k].path()
                        &&& byte_len(v@[k]@) <= 256
                    },
            decreases self.topics@.len() - i,
        {
            match self.topics[i].format::<256>() {
                Ok(p) => {
                    v.push(p);
                },
                Err(e) => {
                    assert(byte_len(self@[i as int].path()) > 256);
                    return Err(e);
                },
            }
            i += 1;
        }
        Ok(v)
    }

    /// Unsubscribes from the topics, `BATCH` of them with each call of the
    /// client, in the order in which they were added. Nothing is sent
    /// where there is no topic, or where a path overflows; the first call
    /// that the client refuses ends the sending.
    pub fn send<M: Mqtt>(self, mqtt: &M) -> (r: Result<(), Error>)
        requires
            self.wf(),
        ensures
            self@.len() == 0 ==> r is Ok,
            path_too_long(self@, 256) ==> r == Err::<(), Error>(Error::Overflow),
            match r {
                Ok(_) => !path_too_long(self@, 256),
                Err(Error::Overflow) => path_too_long(self@, 256),
                Err(Error::Mqtt(_)) => self@.len() > 0 && !path_too_long(self@, 256),
                Err(_) => false,
            },
    {
        if self.topics.len() == 0 {
            return Ok(());
        }
        let ghost listed = self@;
        let paths = match self.topics() {
            Ok(v) => v,
            Err(e) => {
                return Err(e);
            },
        };
        proof {
            assert forall|i: int| 0 <= i < listed.len() implies byte_len(
                (#[trigger] listed[i]).path(),
            ) <= 256 by {
                let _ = paths@[i];
            }
        }
        let total = paths.len();
        let ranges = batches(total);
        let mut k: usize = 0;
        while k < ranges.len()
            invariant
                k <= ranges@.len(),
                total == paths@.len(),
                ranges@ == batch_ranges(paths@.len()),
                listed == self@,
                listed.len() == paths@.len() > 0,
                !path_too_long(listed, 256),
                forall|i: int| 0 <= i < paths@.len() ==> (#[trigger] paths@[i])@ == listed[i].path(),
            decreases ranges@.len() - k,
        {
            let (from, to) = ranges[k];
            proof {
                batches_tile(paths@.len(), k as int);
            }
            let batch = paths_between(&paths, from, to);
            // the call gets the next topics of the builder, as they were added
            assert(from == 5 * k && batch@.len() == to - from);
            assert forall|i: int| 0 <= i < batch@.len() implies (#[trigger] batch@[i])@ == listed[5
                * k + i].path() by {
                let _ = paths@[from + i];
            }
            match unsubscribe_batch(mqtt, &batch) {
                Ok(_) => {},
                Err(e) => {
                    return sent(Err(e));
                },
            }
            k += 1;
        }
        Ok(())
    }
}

/// Calls `Mqtt::unsubscribe` of the client with the paths of one batch, in
/// the order given. What the client answers is up to the client and the
/// broker: nothing is claimed of it.
#[verifier::external_body]
fn unsubscribe_batch<M: Mqtt>(mqtt: &M, batch: &Vec<&str>) -> (r: Result<(), MqttError>)
    requires
        batch@.len() <= 5,
{
    mqtt.unsubscribe(batch.as_slice())
}

} // verus!
