//! The identity of one generation: a token that names the project's
//! directory and that no existing directory bears.

use std::collections::hash_map::DefaultHasher;
use std::hash::Hasher;
use vstd::prelude::*;
use vstd::std_specs::hash::DefaultHasherAdditionalSpecFns;
use vstd::string::StringExecFns;
use vstd::utf8::encode_utf8;
use crate::description::{ProjectDescription, ProjectDescriptionView, TargetKind};
use crate::error::ProjectGeneratingServiceError;
use crate::text::{opt_text, text_eq, texts};

verus! {

/// The decimal digit `d`.
pub open spec fn digit(d: int) -> char {
    if d == 0 {
        '0'
    } else if d == 1 {
        '1'
    } else if d == 2 {
        '2'
    } else if d == 3 {
        '3'
    } else if d == 4 {
        '4'
    } else if d == 5 {
        '5'
    } else if d == 6 {
        '6'
    } else if d == 7 {
        '7'
    } else if d == 8 {
        '8'
    } else {
        '9'
    }
}

/// The decimal numeral of `n`, without leading zeros.
pub open spec fn decimal(n: nat) -> Seq<char>
    decreases n,
{
    if n < 10 {
        seq![digit(n as int)]
    } else {
        decimal(n / 10).push(digit((n % 10) as int))
    }
}

/// The decimal digit `d` as a string.
fn digit_text(d: u64) -> (r: &'static str)
    requires
        d < 10,
    ensures
        r@ == seq![digit(d as int)],
{
    proof {
        reveal_strlit("0");
        reveal_strlit("1");
        reveal_strlit("2");
        reveal_strlit("3");
        reveal_strlit("4");
        reveal_strlit("5");
        reveal_strlit("6");
        reveal_strlit("7");
        reveal_strlit("8");
        reveal_strlit("9");
    }
    let r = if d == 0 {
        "0"
    } else if d == 1 {
        "1"
    } else if d == 2 {
        "2"
    } else if d == 3 {
        "3"
    } else if d == 4 {
        "4"
    } else if d == 5 {
        "5"
    } else if d == 6 {
        "6"
    } else if d == 7 {
        "7"
    } else if d == 8 {
        "8"
    } else {
        "9"
    };
    assert(r@ =~= seq![digit(d as int)]);
    r
}

/// The decimal numeral of `n`.
pub fn decimal_text(n: u64) -> (r: String)
    ensures
        r@ == decimal(n as nat),
    decreases n,
{
    if n < 10 {
        digit_text(n).to_string()
    } else {
        let mut s = decimal_text(n / 10);
        s.append(digit_text(n % 10));
        s
    }
}

/// The mark that is hashed before an optional value: one byte that tells
/// whether the value is there.
pub open spec fn presence(s: Option<Seq<char>>) -> Seq<u8> {
    match s {
        Some(_) => seq![1u8],
        None => seq![0u8],
    }
}

/// The bytes of an optional value; none where it is absent.
pub open spec fn opt_bytes(s: Option<Seq<char>>) -> Seq<u8> {
    match s {
        Some(t) => encode_utf8(t),
        None => Seq::empty(),
    }
}

/// The byte that stands for a target kind.
pub open spec fn kind_byte(k: TargetKind) -> u8 {
    match k {
        TargetKind::Bin => 0u8,
        TargetKind::Lib => 1u8,
    }
}

/// The bytes of each of `items`, in UTF-8.
pub open spec fn all_bytes(items: Seq<Seq<char>>) -> Seq<Seq<u8>> {
    Seq::new(items.len(), |i: int| encode_utf8(items[i]))
}

/// What is hashed of a description, piece by piece: the name, the
/// description and the author, each of the two behind its presence mark,
/// the target kind, and the starter names in order.
pub open spec fn hashed_pieces(d: ProjectDescriptionView) -> Seq<Seq<u8>> {
    seq![
        encode_utf8(d.package.name),
        presence(d.package.description),
        opt_bytes(d.package.description),
        presence(d.package.author),
        opt_bytes(d.package.author),
        seq![kind_byte(d.target_kind)],
    ] + all_bytes(d.starters)
}

/// The hash of a description.
pub open spec fn description_digest(d: ProjectDescriptionView) -> u64 {
    DefaultHasher::spec_finish(hashed_pieces(d))
}

/// The identity that belongs to a description at the time that
/// `timestamp` names: the decimal numeral of the hash of the timestamp
/// followed by the decimal numeral of the description's hash.
pub open spec fn identity_text(timestamp: Seq<char>, d: ProjectDescriptionView) -> Seq<char> {
    decimal(
        DefaultHasher::spec_finish(
            seq![encode_utf8(timestamp + decimal(description_digest(d) as nat))],
        ) as nat,
    )
}

/// Feeds an optional value to the hasher, behind its presence mark.
fn write_optional(hasher: &mut DefaultHasher, value: &Option<String>)
    ensures
        final(hasher)@ == old(hasher)@.push(presence(opt_text(*value))).push(
            opt_bytes(opt_text(*value)),
        ),
{
    match value {
        Some(t) => {
            let mark: [u8; 1] = [1u8];
            hasher.write(mark.as_slice());
            hasher.write(t.as_str().as_bytes());
            assert(mark@ =~= seq![1u8]);
        },
        None => {
            let mark: [u8; 1] = [0u8];
            let nothing: [u8; 0] = [];
            hasher.write(mark.as_slice());
            hasher.write(nothing.as_slice());
            assert(mark@ =~= seq![0u8]);
            assert(nothing@ =~= Seq::<u8>::empty());
        },
    }
}

/// Hashes a description.
pub fn description_hash(description: &ProjectDescription) -> (r: u64)
    ensures
        r == description_digest(description@),
{
    let mut hasher = DefaultHasher::new();
    hasher.write(description.package_description.name.as_str().as_bytes());
    write_optional(&mut hasher, &description.package_description.description);
    write_optional(&mut hasher, &description.package_description.author);
    let kind: [u8; 1] = match description.target_kind {
        TargetKind::Bin => [0u8],
        TargetKind::Lib => [1u8],
    };
    hasher.write(kind.as_slice());
    assert(kind@ =~= seq![kind_byte(description.target_kind)]);
    let ghost head = hasher@;
    let ghost names = texts(description.starters@);
    let mut i: usize = 0;
    while i < description.starters.len()
        invariant
            i <= description.starters.len(),
            names == texts(description.starters@),
            hasher@ == head + all_bytes(names.take(i as int)),
        decreases description.starters.len() - i,
    {
        hasher.write(description.starters[i].as_str().as_bytes());
        proof {
            assert(all_bytes(names.take(i as int + 1)) =~= all_bytes(names.take(i as int)).push(
                encode_utf8(names[i as int]),
            ));
        }
        i += 1;
    }
    proof {
        assert(names.take(description.starters@.len() as int) =~= names);
        assert(head =~= seq![
            encode_utf8(description@.package.name),
            presence(description@.package.description),
            opt_bytes(description@.package.description),
            presence(description@.package.author),
            opt_bytes(description@.package.author),
            seq![kind_byte(description@.target_kind)],
        ]);
    }
    hasher.finish()
}

/// The identity that belongs to a description at the time that
/// `timestamp` names.
pub fn identity_for(timestamp: &str, description: &ProjectDescription) -> (r: String)
    ensures
        r@ == identity_text(timestamp@, description@),
{
    let inner = decimal_text(description_hash(description));
    let mut text = String::new();
    text.append(timestamp);
    text.append(inner.as_str());
    assert(text@ =~= timestamp@ + inner@);
    let mut hasher = DefaultHasher::new();
    hasher.write(text.as_str().as_bytes());
    assert(hasher@ =~= seq![encode_utf8(text@)]);
    decimal_text(hasher.finish())
}

/// Whether a project directory of this identity exists already: whether
/// `existing`, the names of the directories of the workspace, holds it.
pub fn is_project_hash_exists(existing: &Vec<String>, project_hash: &str) -> (r: bool)
    ensures
        r == texts(existing@).contains(project_hash@),
{
    let mut i: usize = 0;
    while i < existing.len()
        invariant
            i <= existing.len(),
            forall|k: int| 0 <= k < i ==> existing@[k]@ != project_hash@,
        decreases existing.len() - i,
    {
        if text_eq(existing[i].as_str(), project_hash) {
            assert(texts(existing@)[i as int] == project_hash@);
            return true;
        }
        i += 1;
    }
    false
}

/// Calls `chrono::Utc::now` and writes the time out as text.
///
/// Nothing is claimed of the text: it depends on the clock.
#[verifier::external_body]
fn current_timestamp() -> String {
    chrono::Utc::now().to_string()
}

/// The identity that belongs to the description at the time that
/// `timestamp` names, unless a directory of `existing` bears it.
pub fn try_identity(timestamp: &str, description: &ProjectDescription, existing: &Vec<String>) -> (r:
    Option<String>)
    ensures
        match r {
            Some(id) => id@ == identity_text(timestamp@, description@) && !texts(
                existing@,
            ).contains(id@),
            None => texts(existing@).contains(identity_text(timestamp@, description@)),
        },
{
    let id = identity_for(timestamp, description);
    if is_project_hash_exists(existing, id.as_str()) {
        None
    } else {
        Some(id)
    }
}

/// Whether the identity of the description at each of the times that
/// `stamps` names is borne by a directory of `existing`.
pub open spec fn all_taken(
    stamps: Seq<Seq<char>>,
    d: ProjectDescriptionView,
    existing: Seq<Seq<char>>,
) -> bool {
    forall|i: int|
        0 <= i < stamps.len() ==> existing.contains(identity_text(#[trigger] stamps[i], d))
}

/// Whether `id` is the identity of the description at the time `stamp`,
/// free among `existing`, and tried after the identities of the earlier
/// times `stamps`, fewer than `max_attempts`, were each found taken.
pub open spec fn chosen_after(
    id: Seq<char>,
    stamps: Seq<Seq<char>>,
    stamp: Seq<char>,
    d: ProjectDescriptionView,
    existing: Seq<Seq<char>>,
    max_attempts: int,
) -> bool {
    &&& stamps.len() < max_attempts
    &&& all_taken(stamps, d, existing)
    &&& id == identity_text(stamp, d)
    &&& !existing.contains(id)
}

/// Whether `id` is the first free identity among those of at most
/// `max_attempts` times, one after the other.
pub open spec fn first_free(
    id: Seq<char>,
    d: ProjectDescriptionView,
    existing: Seq<Seq<char>>,
    max_attempts: int,
) -> bool {
    exists|stamps: Seq<Seq<char>>, stamp: Seq<char>| #[trigger]
        chosen_after(id, stamps, stamp, d, existing, max_attempts)
}

/// Whether the identities of `max_attempts` times, one after the other,
/// were each found taken.
pub open spec fn exhausted(
    d: ProjectDescriptionView,
    existing: Seq<Seq<char>>,
    max_attempts: int,
) -> bool {
    exists|stamps: Seq<Seq<char>>|
        stamps.len() == max_attempts && #[trigger] all_taken(stamps, d, existing)
}

/// Chooses the identity of a generation: the identity that belongs to the
/// description at the time of the call, unless a directory of `existing`
/// bears it; then that of a later time, and so on, up to `max_attempts`
/// times in all.
///
/// The first identity that is free is returned. The choice fails only
/// when `max_attempts` identities were tried and each was taken; with no
/// directory in the workspace the first attempt succeeds.
pub fn get_project_hash(
    description: &ProjectDescription,
    existing: &Vec<String>,
    max_attempts: usize,
) -> (r: Result<String, ProjectGeneratingServiceError>)
    ensures
        match r {
            Ok(id) => {
                &&& !texts(existing@).contains(id@)
                &&& first_free(id@, description@, texts(existing@), max_attempts as int)
            },
            Err(ProjectGeneratingServiceError::IdentityExhausted) => exhausted(
                description@,
                texts(existing@),
                max_attempts as int,
            ),
            Err(_) => false,
        },
{
    let ghost stamps = Seq::<Seq<char>>::empty();
    let mut attempt: usize = 0;
    while attempt < max_attempts
        invariant
            attempt <= max_attempts,
            stamps.len() == attempt,
            all_taken(stamps, description@, texts(existing@)),
        decreases max_attempts - attempt,
    {
        let timestamp = current_timestamp();
        match try_identity(timestamp.as_str(), description, existing) {
            Some(id) => {
                assert(chosen_after(
                    id@,
                    stamps,
                    timestamp@,
                    description@,
                    texts(existing@),
                    max_attempts as int,
                ));
                return Ok(id);
            },
            None => {
                proof {
                    let grown = stamps.push(timestamp@);
                    assert forall|i: int| 0 <= i < grown.len() implies texts(existing@).contains(
                        identity_text(#[trigger] grown[i], description@),
                    ) by {
                        if i < stamps.len() {
                            assert(grown[i] == stamps[i]);
                        }
                    }
                    stamps = grown;
                }
            },
        }
        attempt += 1;
    }
    Err(ProjectGeneratingServiceError::IdentityExhausted)
}

/// How the creation of the project's directory ended.
#[derive(Clone, Copy, Debug, PartialEq, Eq, Structural)]
pub enum CreationOutcome {
    /// The directory was created.
    Created,
    /// A directory of that name exists already.
    AlreadyExists,
    /// The directory could not be created.
    Failed,
}

/// What follows the creation of the project's directory.
#[derive(Clone, Copy, Debug, PartialEq, Eq, Structural)]
pub enum NextStep {
    /// The project is written into the directory.
    Write,
    /// Another identity is chosen.
    Retry,
    /// The generation fails: no identity is left to try.
    GiveUp,
    /// The generation fails with the error of the creation.
    Fail,
}

/// What follows the creation of the project's directory, after
/// `attempts_made` attempts of at most `max_attempts`.
pub open spec fn next_step(
    attempts_made: int,
    max_attempts: int,
    outcome: CreationOutcome,
) -> NextStep {
    match outcome {
        CreationOutcome::Created => NextStep::Write,
        CreationOutcome::Failed => NextStep::Fail,
        CreationOutcome::AlreadyExists => if attempts_made < max_attempts {
            NextStep::Retry
        } else {
            NextStep::GiveUp
        },
    }
}

/// Decides what follows the creation of the project's directory: a
/// directory that exists already, though its name was free when the
/// identity was chosen, sends the generation back to choose another
/// identity, as long as attempts are left.
pub fn after_creation(attempts_made: usize, max_attempts: usize, outcome: CreationOutcome) -> (r:
    NextStep)
    ensures
        r == next_step(attempts_made as int, max_attempts as int, outcome),
{
    match outcome {
        CreationOutcome::Created => NextStep::Write,
        CreationOutcome::Failed => NextStep::Fail,
        CreationOutcome::AlreadyExists => if attempts_made < max_attempts {
            NextStep::Retry
        } else {
            NextStep::GiveUp
        },
    }
}

} // verus!
