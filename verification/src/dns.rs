//! DNS resource-record kinds and their canonical upper-case names.

use crate::text::same;
use vstd::prelude::*;
use vstd::string::*;

verus! {

/// The kinds of DNS resource record that the provider manages.
#[derive(Clone, Copy, Debug, PartialEq, Eq, Structural)]
pub enum RecordType {
    A,
    AAAA,
    CAA,
    CERT,
    CNAME,
    DNSKEY,
    DS,
    LOC,
    NAPTR,
    NS,
    PTR,
    SMIMEA,
    SPF,
    SRV,
    SSHPF,
    TLSA,
    TXT,
    URI,
}

/// What leads the message that reports an unknown record type.
pub open spec fn invalid_type_prefix() -> Seq<char> {
    "Invalid DNS record type "@
}

impl RecordType {
    /// The canonical name of the kind.
    pub open spec fn name(self) -> Seq<char> {
        match self {
            RecordType::A => "A"@,
            RecordType::AAAA => "AAAA"@,
            RecordType::CAA => "CAA"@,
            RecordType::CERT => "CERT"@,
            RecordType::CNAME => "CNAME"@,
            RecordType::DNSKEY => "DNSKEY"@,
            RecordType::DS => "DS"@,
            RecordType::LOC => "LOC"@,
            RecordType::NAPTR => "NAPTR"@,
            RecordType::NS => "NS"@,
            RecordType::PTR => "PTR"@,
            RecordType::SMIMEA => "SMIMEA"@,
            RecordType::SPF => "SPF"@,
            RecordType::SRV => "SRV"@,
            RecordType::SSHPF => "SSHPF"@,
            RecordType::TLSA => "TLSA"@,
            RecordType::TXT => "TXT"@,
            RecordType::URI => "URI"@,
        }
    }

    /// The kind that `s` names: the one whose canonical name is exactly `s`,
    /// if there is one.
    pub open spec fn named(s: Seq<char>) -> Option<RecordType> {
        if exists|t: RecordType| #[trigger] t.name() == s {
            Some(choose|t: RecordType| #[trigger] t.name() == s)
        } else {
            None
        }
    }

    /// The canonical name of the kind, as text.
    pub fn to_string(&self) -> (s: String)
        ensures
            s@ == self.name(),
    {
        let name: &str = match self {
            RecordType::A => "A",
            RecordType::AAAA => "AAAA",
            RecordType::CAA => "CAA",
            RecordType::CERT => "CERT",
            RecordType::CNAME => "CNAME",
            RecordType::DNSKEY => "DNSKEY",
            RecordType::DS => "DS",
            RecordType::LOC => "LOC",
            RecordType::NAPTR => "NAPTR",
            RecordType::NS => "NS",
            RecordType::PTR => "PTR",
            RecordType::SMIMEA => "SMIMEA",
            RecordType::SPF => "SPF",
            RecordType::SRV => "SRV",
            RecordType::SSHPF => "SSHPF",
            RecordType::TLSA => "TLSA",
            RecordType::TXT => "TXT",
            RecordType::URI => "URI",
        };
        String::from_str(name)
    }

    /// Reads a kind from its canonical name. Any other text is refused, with
    /// a message that quotes it.
    pub fn parse(s: &str) -> (r: Result<RecordType, String>)
        ensures
            match r {
                Ok(t) => Self::named(s@) == Some(t) && t.name() == s@,
                Err(e) => Self::named(s@) is None && e@ == invalid_type_prefix() + s@,
            },
    {
        let found = if same(s, "A") {
            Some(RecordType::A)
        } else if same(s, "AAAA") {
            Some(RecordType::AAAA)
        } else if same(s, "CAA") {
            Some(RecordType::CAA)
        } else if same(s, "CERT") {
            Some(RecordType::CERT)
        } else if same(s, "CNAME") {
            Some(RecordType::CNAME)
        } else if same(s, "DNSKEY") {
            Some(RecordType::DNSKEY)
        } else if same(s, "DS") {
            Some(RecordType::DS)
        } else if same(s, "LOC") {
            Some(RecordType::LOC)
        } else if same(s, "NAPTR") {
            Some(RecordType::NAPTR)
        } else if same(s, "NS") {
            Some(RecordType::NS)
        } else if same(s, "PTR") {
            Some(RecordType::PTR)
        } else if same(s, "SMIMEA") {
            Some(RecordType::SMIMEA)
        } else if same(s, "SPF") {
            Some(RecordType::SPF)
        } else if same(s, "SRV") {
            Some(RecordType::SRV)
        } else if same(s, "SSHPF") {
            Some(RecordType::SSHPF)
        } else if same(s, "TLSA") {
            Some(RecordType::TLSA)
        } else if same(s, "TXT") {
            Some(RecordType::TXT)
        } else if same(s, "URI") {
            Some(RecordType::URI)
        } else {
            None
        };
        match found {
            Some(t) => {
                proof {
                    lemma_name_decides(t, s@);
                }
                Ok(t)
            },
            None => {
                assert forall|t: RecordType| #[trigger] t.name() != s@ by {}
                let mut message = String::from_str("Invalid DNS record type ");
                message.append(s);
                Err(message)
            },
        }
    }
}

impl std::str::FromStr for RecordType {
    type Err = String;

    /// Reads a kind from its canonical name, as `RecordType::parse` does.
    fn from_str(s: &str) -> (r: Result<RecordType, String>)
        ensures
            match r {
                Ok(t) => RecordType::named(s@) == Some(t) && t.name() == s@,
                Err(e) => RecordType::named(s@) is None && e@ == invalid_type_prefix() + s@,
            },
    {
        RecordType::parse(s)
    }
}

/// No two kinds share a canonical name.
pub proof fn lemma_names_differ(a: RecordType, b: RecordType)
    requires
        a.name() == b.name(),
    ensures
        a == b,
{
    reveal_strlit("A");
    reveal_strlit("AAAA");
    reveal_strlit("CAA");
    reveal_strlit("CERT");
    reveal_strlit("CNAME");
    reveal_strlit("DNSKEY");
    reveal_strlit("DS");
    reveal_strlit("LOC");
    reveal_strlit("NAPTR");
    reveal_strlit("NS");
    reveal_strlit("PTR");
    reveal_strlit("SMIMEA");
    reveal_strlit("SPF");
    reveal_strlit("SRV");
    reveal_strlit("SSHPF");
    reveal_strlit("TLSA");
    reveal_strlit("TXT");
    reveal_strlit("URI");
    if a != b {
        let x = a.name();
        let y = b.name();
        assert(x.len() == y.len());
        assert(x[0] == y[0]);
        assert(x[1] == y[1]);
        assert(x[2] == y[2]);
    }
}

/// A text that is the canonical name of a kind names that kind and no other.
pub proof fn lemma_name_decides(t: RecordType, s: Seq<char>)
    requires
        t.name() == s,
    ensures
        RecordType::named(s) == Some(t),
{
    let found = choose|u: RecordType| #[trigger] u.name() == s;
    lemma_names_differ(found, t);
}

/// Writing a kind out and reading it back gives the same kind, for every
/// kind.
pub proof fn lemma_round_trip(t: RecordType)
    ensures
        RecordType::named(t.name()) == Some(t),
{
    lemma_name_decides(t, t.name());
}

/// A text is refused exactly when it is the canonical name of no kind, and
/// a text that is accepted is the canonical name of the kind it gives: no
/// text falls back on a default.
pub proof fn lemma_unknown_name_refused(s: Seq<char>)
    ensures
        RecordType::named(s) is None <==> forall|t: RecordType| #[trigger] t.name() != s,
        forall|t: RecordType| RecordType::named(s) == Some(t) ==> t.name() == s,
{
}

} // verus!
