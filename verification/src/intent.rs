//! Version intents: what a declared package asks of the version that is
//! installed for it, how an intent is written down, and which of the
//! versions on offer it selects.

use crate::error::SyncError;
use crate::version::{
    is_digit, is_version, lemma_decimal_starts_with_digit, version_lt, version_of_text,
    version_text, Version, VersionView,
};
use vstd::prelude::*;

verus! {

/// The four policies by which an intent matches versions.
#[derive(Clone, Copy, Debug, PartialEq, Eq, Structural)]
pub enum VersionIntentKind {
    Exact,
    Compatible,
    Patch,
    Star,
}

/// The mathematical value of a [`VersionIntent`].
pub enum IntentView {
    Exact(VersionView),
    Compatible(VersionView),
    Patch(VersionView),
    Star(VersionView),
}

impl IntentView {
    /// The policy of the intent.
    pub open spec fn kind(self) -> VersionIntentKind {
        match self {
            IntentView::Exact(_) => VersionIntentKind::Exact,
            IntentView::Compatible(_) => VersionIntentKind::Compatible,
            IntentView::Patch(_) => VersionIntentKind::Patch,
            IntentView::Star(_) => VersionIntentKind::Star,
        }
    }

    /// The base version of the intent.
    pub open spec fn base(self) -> VersionView {
        match self {
            IntentView::Exact(v) => v,
            IntentView::Compatible(v) => v,
            IntentView::Patch(v) => v,
            IntentView::Star(v) => v,
        }
    }
}

/// The intent of the given policy and base version.
pub open spec fn intent_of(kind: VersionIntentKind, base: VersionView) -> IntentView {
    match kind {
        VersionIntentKind::Exact => IntentView::Exact(base),
        VersionIntentKind::Compatible => IntentView::Compatible(base),
        VersionIntentKind::Patch => IntentView::Patch(base),
        VersionIntentKind::Star => IntentView::Star(base),
    }
}

/// The policy that a set of mode flags selects: the one whose flag is set,
/// if exactly one is.
pub open spec fn kind_of_flags(exact: bool, compatible: bool, patch: bool, star: bool) -> Result<
    VersionIntentKind,
    SyncError,
> {
    if exact && !compatible && !patch && !star {
        Ok(VersionIntentKind::Exact)
    } else if !exact && compatible && !patch && !star {
        Ok(VersionIntentKind::Compatible)
    } else if !exact && !compatible && patch && !star {
        Ok(VersionIntentKind::Patch)
    } else if !exact && !compatible && !patch && star {
        Ok(VersionIntentKind::Star)
    } else {
        Err(SyncError::ConflictingImportMode)
    }
}

/// Whether the intent admits the candidate version.
///
/// An exact intent admits its base version and no other. A compatible
/// intent admits the versions of the same major number, and of the same
/// minor number too where the major number is zero, that are not before
/// its base. A patch intent admits the versions of the same major and
/// minor numbers that are not before its base. A star intent admits every
/// version.
pub open spec fn intent_matches(intent: IntentView, candidate: VersionView) -> bool {
    match intent {
        IntentView::Exact(base) => candidate == base,
        IntentView::Compatible(base) => {
            &&& candidate.major == base.major
            &&& base.major == 0 ==> candidate.minor == base.minor
            &&& !version_lt(candidate, base)
        },
        IntentView::Patch(base) => {
            &&& candidate.major == base.major
            &&& candidate.minor == base.minor
            &&& !version_lt(candidate, base)
        },
        IntentView::Star(_) => true,
    }
}

/// Whether `best` is the highest of the candidates that the intent admits:
/// it is one of them, every other one that the intent admits is before it,
/// and it is before none of them.
pub open spec fn is_best(intent: IntentView, candidates: Seq<Version>, best: VersionView) -> bool {
    &&& exists|k: int| 0 <= k < candidates.len() && (#[trigger] candidates[k])@ == best
    &&& intent_matches(intent, best)
    &&& forall|j: int|
        0 <= j < candidates.len() && intent_matches(intent, (#[trigger] candidates[j])@) ==> {
            &&& candidates[j]@ == best || version_lt(candidates[j]@, best)
            &&& !version_lt(best, candidates[j]@)
        }
}

/// An intent selects at most one version from the candidates: two
/// versions that are each the highest admitted are the same version.
pub proof fn lemma_best_is_unique(
    intent: IntentView,
    candidates: Seq<Version>,
    first: VersionView,
    second: VersionView,
)
    requires
        is_best(intent, candidates, first),
        is_best(intent, candidates, second),
    ensures
        first == second,
{
    let k: int = choose|k: int| 0 <= k < candidates.len() && (#[trigger] candidates[k])@ == second;
    assert(intent_matches(intent, candidates[k]@));
}

/// The version `0.0.0`, which stands as the base of a star intent that was
/// read from its text.
pub open spec fn zero_version() -> VersionView {
    VersionView { major: 0, minor: 0, patch: 0, pre: Seq::empty(), build: Seq::empty() }
}

/// The text of an intent: the base version alone for an exact intent,
/// after `^` for a compatible one, after `~` for a patch one, and `*` for
/// a star intent, whatever its base.
pub open spec fn intent_text(intent: IntentView) -> Seq<char> {
    match intent {
        IntentView::Exact(base) => version_text(base),
        IntentView::Compatible(base) => seq!['^'] + version_text(base),
        IntentView::Patch(base) => seq!['~'] + version_text(base),
        IntentView::Star(_) => seq!['*'],
    }
}

/// The intent that a text denotes, if it denotes one.
pub open spec fn intent_of_text(text: Seq<char>) -> Option<IntentView> {
    if text == seq!['*'] {
        Some(IntentView::Star(zero_version()))
    } else if text.len() > 0 && text[0] == '^' {
        match version_of_text(text.subrange(1, text.len() as int)) {
            Some(base) => Some(IntentView::Compatible(base)),
            None => None,
        }
    } else if text.len() > 0 && text[0] == '~' {
        match version_of_text(text.subrange(1, text.len() as int)) {
            Some(base) => Some(IntentView::Patch(base)),
            None => None,
        }
    } else {
        match version_of_text(text) {
            Some(base) => Some(IntentView::Exact(base)),
            None => None,
        }
    }
}

/// The text of a version begins with a digit.
proof fn lemma_version_text_starts_with_digit(v: VersionView)
    ensures
        version_text(v).len() >= 1,
        is_digit(version_text(v)[0]),
{
    lemma_decimal_starts_with_digit(v.major);
}

/// An intent that is written down and read again is the same intent. A
/// star intent is written without its base, so it is read again with the
/// base `0.0.0`.
pub proof fn lemma_intent_round_trip(intent: IntentView)
    requires
        is_version(intent.base()),
        intent is Star ==> intent.base() == zero_version(),
    ensures
        intent_of_text(intent_text(intent)) == Some(intent),
{
    let base = intent.base();
    let text = intent_text(intent);
    lemma_version_text_starts_with_digit(base);
    match intent {
        IntentView::Exact(_) => {},
        IntentView::Compatible(_) => {
            assert(text.subrange(1, text.len() as int) =~= version_text(base));
        },
        IntentView::Patch(_) => {
            assert(text.subrange(1, text.len() as int) =~= version_text(base));
        },
        IntentView::Star(_) => {},
    }
}

/// An intent that is written down and read again admits the versions that
/// it admitted before, and has the policy that it had: of a star intent
/// only the base, which admits nothing and refuses nothing, is lost.
pub proof fn lemma_round_trip_keeps_meaning(intent: IntentView, candidate: VersionView)
    requires
        is_version(intent.base()),
    ensures
        intent_of_text(intent_text(intent)) is Some,
        intent_of_text(intent_text(intent))->0.kind() == intent.kind(),
        intent_matches(intent_of_text(intent_text(intent))->0, candidate) == intent_matches(
            intent,
            candidate,
        ),
{
    if !(intent is Star) {
        lemma_intent_round_trip(intent);
    }
}

/// What a declared package asks of its version: a policy and a base
/// version.
#[derive(Debug, PartialEq, Eq)]
pub enum VersionIntent {
    /// The base version and no other.
    Exact(Version),
    /// The versions compatible with the base and not before it.
    Compatible(Version),
    /// The versions of the base's major and minor numbers, not before it.
    Patch(Version),
    /// Every version; the base records the version at hand when the intent
    /// was made, and restricts nothing.
    Star(Version),
}

impl View for VersionIntent {
    type V = IntentView;

    open spec fn view(&self) -> IntentView {
        match self {
            VersionIntent::Exact(base) => IntentView::Exact(base@),
            VersionIntent::Compatible(base) => IntentView::Compatible(base@),
            VersionIntent::Patch(base) => IntentView::Patch(base@),
            VersionIntent::Star(base) => IntentView::Star(base@),
        }
    }
}

impl Clone for VersionIntent {
    fn clone(&self) -> (intent: VersionIntent)
        ensures
            intent@ == self@,
    {
        match self {
            VersionIntent::Exact(base) => VersionIntent::Exact(base.clone()),
            VersionIntent::Compatible(base) => VersionIntent::Compatible(base.clone()),
            VersionIntent::Patch(base) => VersionIntent::Patch(base.clone()),
            VersionIntent::Star(base) => VersionIntent::Star(base.clone()),
        }
    }
}

impl VersionIntentKind {
    /// The policy that the mode flags select. Exactly one flag selects its
    /// policy; none, or more than one, is refused.
    pub fn from_flags(exact: bool, compatible: bool, patch: bool, star: bool) -> (r: Result<
        VersionIntentKind,
        SyncError,
    >)
        ensures
            r == kind_of_flags(exact, compatible, patch, star),
    {
        if exact && !compatible && !patch && !star {
            Ok(VersionIntentKind::Exact)
        } else if !exact && compatible && !patch && !star {
            Ok(VersionIntentKind::Compatible)
        } else if !exact && !compatible && patch && !star {
            Ok(VersionIntentKind::Patch)
        } else if !exact && !compatible && !patch && star {
            Ok(VersionIntentKind::Star)
        } else {
            Err(SyncError::ConflictingImportMode)
        }
    }
}

impl VersionIntent {
    /// The intent of the given policy and base version.
    pub fn new(kind: VersionIntentKind, base: Version) -> (intent: VersionIntent)
        ensures
            intent@ == intent_of(kind, base@),
    {
        match kind {
            VersionIntentKind::Exact => VersionIntent::Exact(base),
            VersionIntentKind::Compatible => VersionIntent::Compatible(base),
            VersionIntentKind::Patch => VersionIntent::Patch(base),
            VersionIntentKind::Star => VersionIntent::Star(base),
        }
    }

    /// The policy of the intent.
    pub fn kind(&self) -> (kind: VersionIntentKind)
        ensures
            kind == self@.kind(),
    {
        match self {
            VersionIntent::Exact(_) => VersionIntentKind::Exact,
            VersionIntent::Compatible(_) => VersionIntentKind::Compatible,
            VersionIntent::Patch(_) => VersionIntentKind::Patch,
            VersionIntent::Star(_) => VersionIntentKind::Star,
        }
    }

    /// The base version of the intent.
    pub fn base(&self) -> (base: &Version)
        ensures
            base@ == self@.base(),
    {
        match self {
            VersionIntent::Exact(base) => base,
            VersionIntent::Compatible(base) => base,
            VersionIntent::Patch(base) => base,
            VersionIntent::Star(base) => base,
        }
    }

    /// Whether the intent admits the candidate version.
    pub fn matches(&self, candidate: &Version) -> (r: bool)
        ensures
            r == intent_matches(self@, candidate@),
    {
        match self {
            VersionIntent::Exact(base) => candidate.equals(base),
            VersionIntent::Compatible(base) => {
                candidate.major() == base.major() && (base.major() != 0 || candidate.minor()
                    == base.minor()) && !candidate.precedes(base)
            },
            VersionIntent::Patch(base) => {
                candidate.major() == base.major() && candidate.minor() == base.minor()
                    && !candidate.precedes(base)
            },
            VersionIntent::Star(_) => true,
        }
    }

    /// The highest of the candidates that the intent admits. It fails with
    /// `NoMatchingVersion` when the intent admits none of them, and only
    /// then.
    pub fn select(&self, candidates: &Vec<Version>) -> (r: Result<Version, SyncError>)
        ensures
            match r {
                Ok(best) => is_best(self@, candidates@, best@),
                Err(error) => {
                    &&& error == SyncError::NoMatchingVersion
                    &&& forall|j: int|
                        0 <= j < candidates@.len() ==> !intent_matches(
                            self@,
                            (#[trigger] candidates@[j])@,
                        )
                },
            },
    {
        let mut best: Option<usize> = None;
        let mut i: usize = 0;
        while i < candidates.len()
            invariant
                i <= candidates@.len(),
                forall|j: int| 0 <= j < i ==> is_version((#[trigger] candidates@[j])@),
                match best {
                    Some(k) => {
                        &&& k < i
                        &&& intent_matches(self@, candidates@[k as int]@)
                        &&& forall|j: int|
                            0 <= j < i && intent_matches(self@, (#[trigger] candidates@[j])@) ==> {
                                &&& candidates@[j]@ == candidates@[k as int]@ || version_lt(
                                    candidates@[j]@,
                                    candidates@[k as int]@,
                                )
                                &&& !version_lt(candidates@[k as int]@, candidates@[j]@)
                            }
                    },
                    None => forall|j: int|
                        0 <= j < i ==> !intent_matches(self@, (#[trigger] candidates@[j])@),
                },
            decreases candidates@.len() - i,
        {
            let candidate = &candidates[i];
            proof {
                use_type_invariant(candidate);
            }
            if self.matches(candidate) {
                match best {
                    None => {
                        best = Some(i);
                    },
                    Some(k) => {
                        if candidates[k].precedes(candidate) {
                            best = Some(i);
                        }
                    },
                }
            }
            i += 1;
        }
        match best {
            Some(k) => Ok(candidates[k].clone()),
            None => Err(SyncError::NoMatchingVersion),
        }
    }

    /// The text of the intent. It reads back as the intent itself, but
    /// that a star intent is read back with the base `0.0.0`; either way
    /// what is read back admits the versions that the intent admits.
    pub fn render(&self) -> (text: String)
        ensures
            text@ == intent_text(self@),
            intent_of_text(text@) == Some(
                if self@ is Star {
                    IntentView::Star(zero_version())
                } else {
                    self@
                },
            ),
            forall|candidate: VersionView|
                intent_matches(intent_of_text(text@)->0, candidate) == #[trigger] intent_matches(
                    self@,
                    candidate,
                ),
    {
        let base = self.base();
        proof {
            use_type_invariant(base);
            if !(self@ is Star) {
                lemma_intent_round_trip(self@);
            }
            assert forall|candidate: VersionView|
                intent_matches(
                    intent_of_text(intent_text(self@))->0,
                    candidate,
                ) == #[trigger] intent_matches(self@, candidate) by {
                lemma_round_trip_keeps_meaning(self@, candidate);
            }
        }
        match self {
            VersionIntent::Exact(base) => base.render(),
            VersionIntent::Compatible(base) => {
                proof {
                    reveal_strlit("^");
                }
                String::from_str("^").concat(base.render().as_str())
            },
            VersionIntent::Patch(base) => {
                proof {
                    reveal_strlit("~");
                }
                String::from_str("~").concat(base.render().as_str())
            },
            VersionIntent::Star(_) => {
                proof {
                    reveal_strlit("*");
                }
                String::from_str("*")
            },
        }
    }

    /// Reads an intent from its text: `*` as a star intent with the base
    /// `0.0.0`, a version after `^` as a compatible intent, a version after
    /// `~` as a patch intent, and a version alone as an exact intent. What
    /// is read renders as the text that was given.
    pub fn parse(text: &str) -> (r: Option<VersionIntent>)
        ensures
            match r {
                Some(intent) => intent_of_text(text@) == Some(intent@) && intent_text(intent@)
                    == text@,
                None => intent_of_text(text@) is None,
            },
    {
        let n: usize = text.unicode_len();
        if n > 0 {
            let first = text.get_char(0);
            if n == 1 && first == '*' {
                assert(text@ =~= seq!['*']);
                return Some(VersionIntent::Star(Version::new(0, 0, 0)));
            }
            if first == '^' || first == '~' {
                return match Version::parse(text.substring_char(1, n)) {
                    Some(base) => {
                        if first == '^' {
                            Some(VersionIntent::Compatible(base))
                        } else {
                            Some(VersionIntent::Patch(base))
                        }
                    },
                    None => None,
                };
            }
        }
        match Version::parse(text) {
            Some(base) => Some(VersionIntent::Exact(base)),
            None => None,
        }
    }
}

} // verus!
