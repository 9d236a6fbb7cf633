//! What the signing inventory shows: every image's signing posture, what a continuity gate would do
//! with it, and how a repository's signed history drifted.

use crate::text;
use vstd::prelude::*;
use vstd::string::*;

verus! {

/// An image's signing posture. There is always one; a registry that cannot be reached reads as the
/// transient [`SigningPosture::Checking`], never as clean.
#[derive(Debug, Clone, Copy, PartialEq, Eq, Structural)]
pub enum SigningPosture {
    /// Signed without a key, and verified.
    Signed,
    /// Signed with a key: in the transparency log, the signer unknown.
    SignedKeyBased,
    /// Signed, and not verifiable against the trust root here.
    Unverifiable,
    /// Signed, and the signature does not hold: the loud case.
    Invalid,
    /// Not signed.
    NotSigned,
    /// Not known yet.
    Checking,
}

impl SigningPosture {
    /// The posture that a status word names; any other word is [`SigningPosture::Checking`].
    pub open spec fn parse_of(word: Seq<char>) -> SigningPosture {
        if word == "signed"@ {
            SigningPosture::Signed
        } else if word == "signed-key-based"@ {
            SigningPosture::SignedKeyBased
        } else if word == "unverifiable"@ {
            SigningPosture::Unverifiable
        } else if word == "invalid-signature"@ {
            SigningPosture::Invalid
        } else if word == "not-signed"@ {
            SigningPosture::NotSigned
        } else {
            SigningPosture::Checking
        }
    }

    /// The posture that a status word names; any other word is [`SigningPosture::Checking`].
    pub fn parse(word: &str) -> (r: SigningPosture)
        ensures
            r == SigningPosture::parse_of(word@),
    {
        if text::same(word, "signed") {
            SigningPosture::Signed
        } else if text::same(word, "signed-key-based") {
            SigningPosture::SignedKeyBased
        } else if text::same(word, "unverifiable") {
            SigningPosture::Unverifiable
        } else if text::same(word, "invalid-signature") {
            SigningPosture::Invalid
        } else if text::same(word, "not-signed") {
            SigningPosture::NotSigned
        } else {
            SigningPosture::Checking
        }
    }

    /// The style token of the posture.
    pub open spec fn token_text(self) -> Seq<char> {
        match self {
            SigningPosture::Signed => "signed"@,
            SigningPosture::SignedKeyBased => "signedkey"@,
            SigningPosture::Unverifiable => "unverifiable"@,
            SigningPosture::Invalid => "invalid"@,
            SigningPosture::NotSigned => "notsigned"@,
            SigningPosture::Checking => "checking"@,
        }
    }

    /// The style token of the posture.
    pub fn token(self) -> (r: &'static str)
        ensures
            r@ == self.token_text(),
    {
        match self {
            SigningPosture::Signed => "signed",
            SigningPosture::SignedKeyBased => "signedkey",
            SigningPosture::Unverifiable => "unverifiable",
            SigningPosture::Invalid => "invalid",
            SigningPosture::NotSigned => "notsigned",
            SigningPosture::Checking => "checking",
        }
    }

    /// The glyph that carries the posture without colour.
    pub open spec fn glyph_text(self) -> Seq<char> {
        match self {
            SigningPosture::Signed => "\u{2713}"@,
            SigningPosture::SignedKeyBased => "\u{2714}"@,
            SigningPosture::Unverifiable => "\u{25d0}"@,
            SigningPosture::Invalid => "\u{2715}"@,
            SigningPosture::NotSigned => "\u{25cb}"@,
            SigningPosture::Checking => "\u{25cc}"@,
        }
    }

    /// The glyph that carries the posture without colour.
    pub fn glyph(self) -> (r: &'static str)
        ensures
            r@ == self.glyph_text(),
    {
        match self {
            SigningPosture::Signed => "\u{2713}",
            SigningPosture::SignedKeyBased => "\u{2714}",
            SigningPosture::Unverifiable => "\u{25d0}",
            SigningPosture::Invalid => "\u{2715}",
            SigningPosture::NotSigned => "\u{25cb}",
            SigningPosture::Checking => "\u{25cc}",
        }
    }

    /// The posture in words.
    pub open spec fn word_text(self) -> Seq<char> {
        match self {
            SigningPosture::Signed => "signed"@,
            SigningPosture::SignedKeyBased => "signed (key-based)"@,
            SigningPosture::Unverifiable => "unverifiable here"@,
            SigningPosture::Invalid => "invalid signature"@,
            SigningPosture::NotSigned => "not signed"@,
            SigningPosture::Checking => "checking\u{2026}"@,
        }
    }

    /// The posture in words.
    pub fn word(self) -> (r: &'static str)
        ensures
            r@ == self.word_text(),
    {
        match self {
            SigningPosture::Signed => "signed",
            SigningPosture::SignedKeyBased => "signed (key-based)",
            SigningPosture::Unverifiable => "unverifiable here",
            SigningPosture::Invalid => "invalid signature",
            SigningPosture::NotSigned => "not signed",
            SigningPosture::Checking => "checking\u{2026}",
        }
    }

    /// Whether the signature is there and does not hold.
    pub fn is_genuinely_invalid(self) -> (r: bool)
        ensures
            r == (self == SigningPosture::Invalid),
    {
        self == SigningPosture::Invalid
    }

    /// Whether a gate that asks for a verified identity would admit the image.
    pub fn would_admit(self) -> (r: bool)
        ensures
            r == (self == SigningPosture::Signed),
    {
        self == SigningPosture::Signed
    }
}

/// What a continuity gate would do with an image: it blocks a regression from the repository's own
/// history, not a posture as such.
#[derive(Debug, Clone, Copy, PartialEq, Eq, Structural)]
pub enum SigningEnforcement {
    /// Continuous with its history.
    WouldAdmit,
    /// A regression from an established baseline, or a signature that does not hold.
    WouldBlock,
    /// A regression from a fresh baseline: a weak lead.
    Uncertain,
    /// A regression that the operator accepted.
    ExceptionAccepted,
}

impl SigningEnforcement {
    /// The verdict on one image. `regression` says whether a regression stands for it, and if so
    /// whether its baseline was established.
    pub open spec fn verdict(posture: SigningPosture, regression: Option<bool>) -> SigningEnforcement {
        if posture == SigningPosture::Invalid {
            SigningEnforcement::WouldBlock
        } else {
            match regression {
                Some(true) => SigningEnforcement::WouldBlock,
                Some(false) => SigningEnforcement::Uncertain,
                None => SigningEnforcement::WouldAdmit,
            }
        }
    }

    /// The verdict on one image.
    pub fn for_image(posture: SigningPosture, regression: Option<bool>) -> (r: SigningEnforcement)
        ensures
            r == SigningEnforcement::verdict(posture, regression),
    {
        if posture.is_genuinely_invalid() {
            return SigningEnforcement::WouldBlock;
        }
        match regression {
            Some(true) => SigningEnforcement::WouldBlock,
            Some(false) => SigningEnforcement::Uncertain,
            None => SigningEnforcement::WouldAdmit,
        }
    }

    /// The style token of the verdict.
    pub open spec fn token_text(self) -> Seq<char> {
        match self {
            SigningEnforcement::WouldAdmit => "admit"@,
            SigningEnforcement::WouldBlock => "block"@,
            SigningEnforcement::Uncertain => "uncertain"@,
            SigningEnforcement::ExceptionAccepted => "exception"@,
        }
    }

    /// The style token of the verdict.
    pub fn token(self) -> (r: &'static str)
        ensures
            r@ == self.token_text(),
    {
        match self {
            SigningEnforcement::WouldAdmit => "admit",
            SigningEnforcement::WouldBlock => "block",
            SigningEnforcement::Uncertain => "uncertain",
            SigningEnforcement::ExceptionAccepted => "exception",
        }
    }

    /// The verdict in words.
    pub open spec fn word_text(self) -> Seq<char> {
        match self {
            SigningEnforcement::WouldAdmit => "would admit"@,
            SigningEnforcement::WouldBlock => "would block"@,
            SigningEnforcement::Uncertain => "uncertain"@,
            SigningEnforcement::ExceptionAccepted => "exception accepted"@,
        }
    }

    /// The verdict in words.
    pub fn word(self) -> (r: &'static str)
        ensures
            r@ == self.word_text(),
    {
        match self {
            SigningEnforcement::WouldAdmit => "would admit",
            SigningEnforcement::WouldBlock => "would block",
            SigningEnforcement::Uncertain => "uncertain",
            SigningEnforcement::ExceptionAccepted => "exception accepted",
        }
    }

    /// The glyph that carries the verdict without colour.
    pub open spec fn glyph_text(self) -> Seq<char> {
        match self {
            SigningEnforcement::WouldAdmit => "\u{2713}"@,
            SigningEnforcement::WouldBlock => "\u{2715}"@,
            SigningEnforcement::Uncertain => "\u{25d0}"@,
            SigningEnforcement::ExceptionAccepted => "\u{25c8}"@,
        }
    }

    /// The glyph that carries the verdict without colour.
    pub fn glyph(self) -> (r: &'static str)
        ensures
            r@ == self.glyph_text(),
    {
        match self {
            SigningEnforcement::WouldAdmit => "\u{2713}",
            SigningEnforcement::WouldBlock => "\u{2715}",
            SigningEnforcement::Uncertain => "\u{25d0}",
            SigningEnforcement::ExceptionAccepted => "\u{25c8}",
        }
    }
}

/// An image's build-provenance posture. Only [`ProvenancePosture::Verified`] is a trusted build.
#[derive(Debug, Clone, Copy, PartialEq, Eq, Structural)]
pub enum ProvenancePosture {
    Verified,
    /// There is an attestation, and it could not be verified here.
    Unverifiable,
    /// There is none.
    Absent,
    /// Not known yet.
    Checking,
}

impl ProvenancePosture {
    /// The posture that a status word names; any other word is [`ProvenancePosture::Checking`].
    pub open spec fn parse_of(word: Seq<char>) -> ProvenancePosture {
        if word == "provenance-verified"@ {
            ProvenancePosture::Verified
        } else if word == "provenance-unverifiable"@ {
            ProvenancePosture::Unverifiable
        } else if word == "no-provenance"@ {
            ProvenancePosture::Absent
        } else {
            ProvenancePosture::Checking
        }
    }

    /// The posture that a status word names; any other word is [`ProvenancePosture::Checking`].
    pub fn parse(word: &str) -> (r: ProvenancePosture)
        ensures
            r == ProvenancePosture::parse_of(word@),
    {
        if text::same(word, "provenance-verified") {
            ProvenancePosture::Verified
        } else if text::same(word, "provenance-unverifiable") {
            ProvenancePosture::Unverifiable
        } else if text::same(word, "no-provenance") {
            ProvenancePosture::Absent
        } else {
            ProvenancePosture::Checking
        }
    }

    /// The style token of the posture.
    pub open spec fn token_text(self) -> Seq<char> {
        match self {
            ProvenancePosture::Verified => "verified"@,
            ProvenancePosture::Unverifiable => "unverifiable"@,
            ProvenancePosture::Absent => "absent"@,
            ProvenancePosture::Checking => "checking"@,
        }
    }

    /// The style token of the posture.
    pub fn token(self) -> (r: &'static str)
        ensures
            r@ == self.token_text(),
    {
        match self {
            ProvenancePosture::Verified => "verified",
            ProvenancePosture::Unverifiable => "unverifiable",
            ProvenancePosture::Absent => "absent",
            ProvenancePosture::Checking => "checking",
        }
    }

    /// The glyph that carries the posture without colour.
    pub open spec fn glyph_text(self) -> Seq<char> {
        match self {
            ProvenancePosture::Verified => "\u{2713}"@,
            ProvenancePosture::Unverifiable => "\u{25d0}"@,
            ProvenancePosture::Absent => "\u{25cb}"@,
            ProvenancePosture::Checking => "\u{25cc}"@,
        }
    }

    /// The glyph that carries the posture without colour.
    pub fn glyph(self) -> (r: &'static str)
        ensures
            r@ == self.glyph_text(),
    {
        match self {
            ProvenancePosture::Verified => "\u{2713}",
            ProvenancePosture::Unverifiable => "\u{25d0}",
            ProvenancePosture::Absent => "\u{25cb}",
            ProvenancePosture::Checking => "\u{25cc}",
        }
    }

    /// The posture in words.
    pub open spec fn word_text(self) -> Seq<char> {
        match self {
            ProvenancePosture::Verified => "provenance"@,
            ProvenancePosture::Unverifiable => "unverifiable"@,
            ProvenancePosture::Absent => "no provenance"@,
            ProvenancePosture::Checking => "checking\u{2026}"@,
        }
    }

    /// The posture in words.
    pub fn word(self) -> (r: &'static str)
        ensures
            r@ == self.word_text(),
    {
        match self {
            ProvenancePosture::Verified => "provenance",
            ProvenancePosture::Unverifiable => "unverifiable",
            ProvenancePosture::Absent => "no provenance",
            ProvenancePosture::Checking => "checking\u{2026}",
        }
    }

    /// Whether this is a trusted build.
    pub fn is_verified(self) -> (r: bool)
        ensures
            r == (self == ProvenancePosture::Verified),
    {
        self == ProvenancePosture::Verified
    }
}

/// Where a verified build came from, and what built it.
#[derive(Debug, Clone, PartialEq, Eq)]
pub struct ProvenanceProps {
    pub source_short: String,
    pub source_full: String,
    pub builder_short: String,
    pub builder_full: String,
}

/// Who signed an image.
#[derive(Debug, Clone, PartialEq, Eq)]
pub struct SignerProps {
    pub identity_short: String,
    pub identity_full: String,
    pub issuer_badge: String,
    pub issuer_full: Option<String>,
}

/// One image of the inventory.
#[derive(Debug, Clone, PartialEq, Eq)]
pub struct SigningRowProps {
    pub dom_id: String,
    pub image: String,
    pub label: String,
    pub posture: SigningPosture,
    /// Present only for a verified signature.
    pub signer: Option<SignerProps>,
    pub provenance: ProvenancePosture,
    /// Present only for a verified build.
    pub provenance_info: Option<ProvenanceProps>,
    pub detail: String,
    pub enforcement: SigningEnforcement,
    pub count: u64,
}

/// How well a repository's signing history is corroborated.
#[derive(Debug, Clone, Copy, PartialEq, Eq, Structural)]
pub enum RepoStrength {
    /// The public transparency log vouches for it.
    LogCorroborated,
    /// It was trusted at first sight.
    LocalOnly,
    /// Nothing was learned yet.
    Unknown,
}

impl RepoStrength {
    /// The strength that a status word names; any other word is [`RepoStrength::Unknown`].
    pub open spec fn parse_of(word: Seq<char>) -> RepoStrength {
        if word == "log-corroborated"@ {
            RepoStrength::LogCorroborated
        } else if word == "local-only"@ {
            RepoStrength::LocalOnly
        } else {
            RepoStrength::Unknown
        }
    }

    /// The strength that a status word names; any other word is [`RepoStrength::Unknown`].
    pub fn parse(word: &str) -> (r: RepoStrength)
        ensures
            r == RepoStrength::parse_of(word@),
    {
        if text::same(word, "log-corroborated") {
            RepoStrength::LogCorroborated
        } else if text::same(word, "local-only") {
            RepoStrength::LocalOnly
        } else {
            RepoStrength::Unknown
        }
    }

    /// The style token of the strength.
    pub fn token(self) -> (r: &'static str)
        ensures
            r@ == (match self {
                RepoStrength::LogCorroborated => "corroborated"@,
                RepoStrength::LocalOnly => "local"@,
                RepoStrength::Unknown => "unknown"@,
            }),
    {
        match self {
            RepoStrength::LogCorroborated => "corroborated",
            RepoStrength::LocalOnly => "local",
            RepoStrength::Unknown => "unknown",
        }
    }

    /// The badge.
    pub fn word(self) -> (r: &'static str)
        ensures
            r@ == (match self {
                RepoStrength::LogCorroborated => "log-corroborated"@,
                RepoStrength::LocalOnly => "new baseline (local only)"@,
                RepoStrength::Unknown => ""@,
            }),
    {
        match self {
            RepoStrength::LogCorroborated => "log-corroborated",
            RepoStrength::LocalOnly => "new baseline (local only)",
            RepoStrength::Unknown => "",
        }
    }

    /// What the strength means.
    pub fn detail(self) -> (r: &'static str)
        ensures
            r@ == (match self {
                RepoStrength::LogCorroborated => "log-corroborated \u{2014} the public transparency log vouches for this repo's signing history (a stronger baseline than local trust-on-first-sight)."@,
                RepoStrength::LocalOnly => "new baseline (local only) \u{2014} trust-on-first-sight; the public transparency log has not yet corroborated this repo's signing history."@,
                RepoStrength::Unknown => "no signing baseline learned for this repo yet."@,
            }),
    {
        match self {
            RepoStrength::LogCorroborated => "log-corroborated \u{2014} the public transparency log vouches for this repo's signing history (a stronger baseline than local trust-on-first-sight).",
            RepoStrength::LocalOnly => "new baseline (local only) \u{2014} trust-on-first-sight; the public transparency log has not yet corroborated this repo's signing history.",
            RepoStrength::Unknown => "no signing baseline learned for this repo yet.",
        }
    }
}

/// One repository of the inventory: its images, and what stands against its history.
#[derive(Debug, Clone, PartialEq, Eq)]
pub struct SigningRepoProps {
    pub repo: String,
    pub images: Vec<SigningRowProps>,
    pub regression: Option<SigningRegressionProps>,
    pub exception: Option<ExceptionAcceptedProps>,
    pub provenance_change: Option<ProvenanceChangeProps>,
    pub strength: RepoStrength,
}

/// A build-provenance change that stands against a repository.
#[derive(Debug, Clone, PartialEq, Eq)]
pub struct ProvenanceChangeProps {
    pub dom_id: String,
    pub established: bool,
    pub before_builders: Vec<String>,
    pub after_builder: String,
    pub after_source: String,
    pub image: String,
}

/// A signing regression that the operator accepted.
#[derive(Debug, Clone, PartialEq, Eq)]
pub struct ExceptionAcceptedProps {
    pub dom_id: String,
    pub kind: RegressionKind,
    pub established: bool,
    pub before_identities: Vec<String>,
    pub after_identity: Option<String>,
    pub image: String,
}

/// How a repository's signing drifted.
#[derive(Debug, Clone, Copy, PartialEq, Eq, Structural)]
pub enum RegressionKind {
    Unsigned,
    Invalid,
    IdentityChange,
    /// The registry serves a signature that the log does not know.
    DivergenceRegistrySigned,
    /// The log knows a signature that the registry no longer serves.
    DivergenceLogSigned,
    DowngradeKeyBased,
    DowngradeUnverifiable,
}

impl RegressionKind {
    /// The kind that a recorded word names; any other word is [`RegressionKind::Unsigned`].
    pub open spec fn parse_of(word: Seq<char>) -> RegressionKind {
        if word == "invalid"@ {
            RegressionKind::Invalid
        } else if word == "identity"@ {
            RegressionKind::IdentityChange
        } else if word == "divergence-registry"@ {
            RegressionKind::DivergenceRegistrySigned
        } else if word == "divergence-log"@ {
            RegressionKind::DivergenceLogSigned
        } else if word == "downgrade-key-based"@ {
            RegressionKind::DowngradeKeyBased
        } else if word == "downgrade-unverifiable"@ {
            RegressionKind::DowngradeUnverifiable
        } else {
            RegressionKind::Unsigned
        }
    }

    /// The kind that a recorded word names; any other word is [`RegressionKind::Unsigned`].
    pub fn parse(word: &str) -> (r: RegressionKind)
        ensures
            r == RegressionKind::parse_of(word@),
    {
        if text::same(word, "invalid") {
            RegressionKind::Invalid
        } else if text::same(word, "identity") {
            RegressionKind::IdentityChange
        } else if text::same(word, "divergence-registry") {
            RegressionKind::DivergenceRegistrySigned
        } else if text::same(word, "divergence-log") {
            RegressionKind::DivergenceLogSigned
        } else if text::same(word, "downgrade-key-based") {
            RegressionKind::DowngradeKeyBased
        } else if text::same(word, "downgrade-unverifiable") {
            RegressionKind::DowngradeUnverifiable
        } else {
            RegressionKind::Unsigned
        }
    }

    /// The style token of the kind.
    pub open spec fn token_text(self) -> Seq<char> {
        match self {
            RegressionKind::Unsigned => "unsigned"@,
            RegressionKind::Invalid => "invalid"@,
            RegressionKind::IdentityChange => "identity"@,
            RegressionKind::DivergenceRegistrySigned => "divergence-registry"@,
            RegressionKind::DivergenceLogSigned => "divergence-log"@,
            RegressionKind::DowngradeKeyBased => "downgrade-key-based"@,
            RegressionKind::DowngradeUnverifiable => "downgrade-unverifiable"@,
        }
    }

    /// The style token of the kind.
    pub fn token(self) -> (r: &'static str)
        ensures
            r@ == self.token_text(),
    {
        match self {
            RegressionKind::Unsigned => "unsigned",
            RegressionKind::Invalid => "invalid",
            RegressionKind::IdentityChange => "identity",
            RegressionKind::DivergenceRegistrySigned => "divergence-registry",
            RegressionKind::DivergenceLogSigned => "divergence-log",
            RegressionKind::DowngradeKeyBased => "downgrade-key-based",
            RegressionKind::DowngradeUnverifiable => "downgrade-unverifiable",
        }
    }

    /// The headline.
    pub fn word(self) -> (r: &'static str)
        ensures
            r@ == (match self {
                RegressionKind::Unsigned => "signing regression \u{2014} now unsigned"@,
                RegressionKind::Invalid => "signing regression \u{2014} now invalid signature"@,
                RegressionKind::IdentityChange => "signing regression \u{2014} new signer"@,
                RegressionKind::DivergenceRegistrySigned => "signing regression \u{2014} registry\u{2194}log divergence"@,
                RegressionKind::DivergenceLogSigned => "signing regression \u{2014} registry\u{2194}log divergence"@,
                RegressionKind::DowngradeKeyBased => "signing regression \u{2014} signing downgrade"@,
                RegressionKind::DowngradeUnverifiable => "signing regression \u{2014} signing downgrade"@,
            }),
    {
        match self {
            RegressionKind::Unsigned => "signing regression \u{2014} now unsigned",
            RegressionKind::Invalid => "signing regression \u{2014} now invalid signature",
            RegressionKind::IdentityChange => "signing regression \u{2014} new signer",
            RegressionKind::DivergenceRegistrySigned => "signing regression \u{2014} registry\u{2194}log divergence",
            RegressionKind::DivergenceLogSigned => "signing regression \u{2014} registry\u{2194}log divergence",
            RegressionKind::DowngradeKeyBased => "signing regression \u{2014} signing downgrade",
            RegressionKind::DowngradeUnverifiable => "signing regression \u{2014} signing downgrade",
        }
    }

    /// What stands there now.
    pub fn after_word(self) -> (r: &'static str)
        ensures
            r@ == (match self {
                RegressionKind::Unsigned => "no signature present"@,
                RegressionKind::Invalid => "signature present but does not verify"@,
                RegressionKind::IdentityChange => "signed by a new identity"@,
                RegressionKind::DivergenceRegistrySigned => "registry serves a signature absent from the public transparency log"@,
                RegressionKind::DivergenceLogSigned => "the transparency log records a signature the registry now serves unsigned"@,
                RegressionKind::DowngradeKeyBased => "now key-based \u{2014} no keyless identity (was keyless-verified)"@,
                RegressionKind::DowngradeUnverifiable => "now unverifiable against our trust root (was keyless-verified)"@,
            }),
    {
        match self {
            RegressionKind::Unsigned => "no signature present",
            RegressionKind::Invalid => "signature present but does not verify",
            RegressionKind::IdentityChange => "signed by a new identity",
            RegressionKind::DivergenceRegistrySigned => "registry serves a signature absent from the public transparency log",
            RegressionKind::DivergenceLogSigned => "the transparency log records a signature the registry now serves unsigned",
            RegressionKind::DowngradeKeyBased => "now key-based \u{2014} no keyless identity (was keyless-verified)",
            RegressionKind::DowngradeUnverifiable => "now unverifiable against our trust root (was keyless-verified)",
        }
    }
}

/// A signing regression that stands against a repository.
#[derive(Debug, Clone, PartialEq, Eq)]
pub struct SigningRegressionProps {
    pub dom_id: String,
    pub kind: RegressionKind,
    pub established: bool,
    pub before_identities: Vec<String>,
    pub after_identity: Option<String>,
    pub after_issuer: Option<String>,
    pub image: String,
}

// ---------------------------------------------------------------------------
// Laws
// ---------------------------------------------------------------------------

/// The token of a kind of regression names that kind.
pub proof fn kind_is_read_back(k: RegressionKind)
    ensures
        RegressionKind::parse_of(k.token_text()) == k,
{
    reveal_strlit("unsigned");
    reveal_strlit("invalid");
    reveal_strlit("identity");
    reveal_strlit("divergence-registry");
    reveal_strlit("divergence-log");
    reveal_strlit("downgrade-key-based");
    reveal_strlit("downgrade-unverifiable");
    assert("unsigned"@.len() == 8 && "invalid"@.len() == 7 && "identity"@.len() == 8);
    assert("unsigned"@[0] == 'u' && "identity"@[0] == 'i');
    assert("divergence-registry"@.len() == 19 && "divergence-log"@.len() == 14);
    assert("downgrade-key-based"@.len() == 19 && "downgrade-unverifiable"@.len() == 22);
    assert("divergence-registry"@[1] == 'i' && "downgrade-key-based"@[1] == 'o');
}

/// The tokens of the postures differ, and so do the glyphs: meaning never rides on colour.
pub proof fn postures_read_apart(a: SigningPosture, b: SigningPosture)
    requires
        a != b,
    ensures
        a.token_text() != b.token_text(),
        a.glyph_text() != b.glyph_text(),
        a.word_text() != b.word_text(),
{
    reveal_strlit("signed");
    reveal_strlit("signedkey");
    reveal_strlit("unverifiable");
    reveal_strlit("invalid");
    reveal_strlit("notsigned");
    reveal_strlit("checking");
    reveal_strlit("\u{2713}");
    reveal_strlit("\u{2714}");
    reveal_strlit("\u{25d0}");
    reveal_strlit("\u{2715}");
    reveal_strlit("\u{25cb}");
    reveal_strlit("\u{25cc}");
    reveal_strlit("signed (key-based)");
    reveal_strlit("unverifiable here");
    reveal_strlit("invalid signature");
    reveal_strlit("not signed");
    reveal_strlit("checking\u{2026}");
    assert("signed"@.len() == 6);
    assert("signedkey"@.len() == 9);
    assert("unverifiable"@.len() == 12);
    assert("invalid"@.len() == 7);
    assert("notsigned"@.len() == 9);
    assert("checking"@.len() == 8);
    assert("signed (key-based)"@.len() == 18);
    assert("unverifiable here"@.len() == 17);
    assert("invalid signature"@.len() == 17);
    assert("not signed"@.len() == 10);
    assert("checking\u{2026}"@.len() == 9);
    assert("\u{2713}"@[0] == '\u{2713}');
    assert("\u{2714}"@[0] == '\u{2714}');
    assert("\u{25d0}"@[0] == '\u{25d0}');
    assert("\u{2715}"@[0] == '\u{2715}');
    assert("\u{25cb}"@[0] == '\u{25cb}');
    assert("\u{25cc}"@[0] == '\u{25cc}');
    assert("signedkey"@[0] == 's' && "notsigned"@[0] == 'n');
    assert("unverifiable here"@[0] == 'u' && "invalid signature"@[0] == 'i');
}

/// A signature that does not hold is blocked whatever the baseline, so a fresh baseline cannot
/// soften it.
pub proof fn invalid_is_always_blocked(regression: Option<bool>)
    ensures
        SigningEnforcement::verdict(SigningPosture::Invalid, regression)
            == SigningEnforcement::WouldBlock,
{
}

/// A posture that may hold is blocked exactly when a regression from an established baseline
/// stands.
pub proof fn block_is_regression(posture: SigningPosture, regression: Option<bool>)
    requires
        posture != SigningPosture::Invalid,
    ensures
        SigningEnforcement::verdict(posture, regression) == SigningEnforcement::WouldBlock
            <==> regression == Some(true),
        SigningEnforcement::verdict(posture, regression) == SigningEnforcement::WouldAdmit
            <==> regression is None,
{
}

/// What a gate would do differs in token, glyph and word: an accepted exception never reads as
/// admitted.
pub proof fn enforcements_read_apart(a: SigningEnforcement, b: SigningEnforcement)
    requires
        a != b,
    ensures
        a.token_text() != b.token_text(),
        a.glyph_text() != b.glyph_text(),
        a.word_text() != b.word_text(),
{
    reveal_strlit("admit");
    reveal_strlit("block");
    reveal_strlit("uncertain");
    reveal_strlit("exception");
    reveal_strlit("would admit");
    reveal_strlit("would block");
    reveal_strlit("exception accepted");
    reveal_strlit("\u{2713}");
    reveal_strlit("\u{2715}");
    reveal_strlit("\u{25d0}");
    reveal_strlit("\u{25c8}");
    assert("admit"@.len() == 5 && "block"@.len() == 5);
    assert("admit"@[0] == 'a' && "block"@[0] == 'b');
    assert("uncertain"@.len() == 9 && "exception"@.len() == 9);
    assert("uncertain"@[0] == 'u' && "exception"@[0] == 'e');
    assert("would admit"@.len() == 11 && "would block"@.len() == 11);
    assert("would admit"@[6] == 'a' && "would block"@[6] == 'b');
    assert("exception accepted"@.len() == 18);
    assert("\u{2713}"@[0] == '\u{2713}' && "\u{2715}"@[0] == '\u{2715}');
    assert("\u{25d0}"@[0] == '\u{25d0}' && "\u{25c8}"@[0] == '\u{25c8}');
}

/// The provenance postures differ in token, glyph and word: only a verified build reads as one.
pub proof fn provenances_read_apart(a: ProvenancePosture, b: ProvenancePosture)
    requires
        a != b,
    ensures
        a.token_text() != b.token_text(),
        a.glyph_text() != b.glyph_text(),
        a.word_text() != b.word_text(),
{
    reveal_strlit("verified");
    reveal_strlit("unverifiable");
    reveal_strlit("absent");
    reveal_strlit("checking");
    reveal_strlit("provenance");
    reveal_strlit("no provenance");
    reveal_strlit("checking\u{2026}");
    reveal_strlit("\u{2713}");
    reveal_strlit("\u{25d0}");
    reveal_strlit("\u{25cb}");
    reveal_strlit("\u{25cc}");
    assert("verified"@.len() == 8 && "checking"@.len() == 8);
    assert("verified"@[0] == 'v' && "checking"@[0] == 'c');
    assert("unverifiable"@.len() == 12 && "absent"@.len() == 6);
    assert("provenance"@.len() == 10 && "no provenance"@.len() == 13);
    assert("checking\u{2026}"@.len() == 9);
    assert("\u{2713}"@[0] == '\u{2713}' && "\u{25d0}"@[0] == '\u{25d0}');
    assert("\u{25cb}"@[0] == '\u{25cb}' && "\u{25cc}"@[0] == '\u{25cc}');
}

} // verus!
