//! The marker strategy: success and failure sentinels beside, or inside, the
//! output location, optionally carrying the call's fingerprint.
use vstd::prelude::*;

use crate::decimal::{decimal, is_digit, lemma_decimal_digits, lemma_decimal_injective, push_decimal};
use crate::strategy::{
    after_update, Disk, DiskView, MarkerUpdate, Outcome, Strategy, UpdateView,
};

verus! {

/// Configuration of the marker strategy. Every flag is independent.
#[derive(Clone, Copy, Debug, PartialEq, Eq, Structural)]
pub struct Markers {
    /// Use failure markers to skip calls that failed before.
    pub failure_marker: bool,
    /// Use success markers to rerun when arguments or code have changed.
    pub success_marker: bool,
    /// Markers carry the argument and code hashes; a marker whose hashes differ
    /// from the current call's is ignored.
    pub hashes: bool,
    /// The output is a directory, and the markers live inside it as `success`
    /// and `failure` rather than beside it as `<output>.success` and
    /// `<output>.failure`.
    pub folder: bool,
}

/// The file name, or extension, of a marker.
pub open spec fn marker_name(success: bool) -> Seq<u8> {
    // "success" and "failure" in ASCII
    if success {
        seq![115u8, 117u8, 99u8, 99u8, 101u8, 115u8, 115u8]
    } else {
        seq![102u8, 97u8, 105u8, 108u8, 117u8, 114u8, 101u8]
    }
}

/// `dir` joined with the relative path `name`: a `/` goes between them unless
/// `dir` is empty or already ends with one.
pub open spec fn join_path(dir: Seq<u8>, name: Seq<u8>) -> Seq<u8> {
    if dir.len() == 0 || dir.last() == 47u8 {
        dir + name
    } else {
        dir.push(47u8) + name
    }
}

/// Where the success (or failure) marker of `output` lives.
pub open spec fn marker_path_spec(folder: bool, success: bool, output: Seq<u8>) -> Seq<u8> {
    if folder {
        join_path(output, marker_name(success))
    } else {
        output.push(46u8) + marker_name(success)
    }
}

/// The content of a marker: the two hashes in decimal separated by a newline,
/// or nothing when hashes are not used.
pub open spec fn payload(hashes: bool, args_hash: u64, code_hash: u64) -> Seq<u8> {
    if hashes {
        decimal(args_hash as nat).push(10u8) + decimal(code_hash as nat)
    } else {
        Seq::empty()
    }
}

/// A marker read from disk stands for the call `(args_hash, code_hash)`: with
/// hashes on, its content is that call's payload; with hashes off, any marker
/// that exists matches.
pub open spec fn marker_matches(
    content: Option<Seq<u8>>,
    hashes: bool,
    args_hash: u64,
    code_hash: u64,
) -> bool {
    if hashes {
        content == Some(payload(true, args_hash, code_hash))
    } else {
        content is Some
    }
}

/// Two byte sequences are equal.
fn bytes_eq(a: &Vec<u8>, b: &Vec<u8>) -> (r: bool)
    ensures
        r == (a@ == b@),
{
    if a.len() != b.len() {
        return false;
    }
    let mut i: usize = 0;
    while i < a.len()
        invariant
            a@.len() == b@.len(),
            0 <= i <= a@.len(),
            forall|j: int| 0 <= j < i ==> a@[j] == b@[j],
        decreases a@.len() - i,
    {
        if a[i] != b[i] {
            return false;
        }
        i += 1;
    }
    assert(a@ =~= b@);
    true
}

/// Appends all of `src` to `out`.
fn push_all(out: &mut Vec<u8>, src: &Vec<u8>)
    ensures
        final(out)@ == old(out)@ + src@,
{
    let mut i: usize = 0;
    while i < src.len()
        invariant
            0 <= i <= src@.len(),
            out@ == old(out)@ + src@.subrange(0, i as int),
        decreases src@.len() - i,
    {
        out.push(src[i]);
        i += 1;
        assert(out@ =~= old(out)@ + src@.subrange(0, i as int));
    }
    assert(src@.subrange(0, src@.len() as int) =~= src@);
}

fn marker_name_bytes(success: bool) -> (r: Vec<u8>)
    ensures
        r@ == marker_name(success),
{
    let r = if success {
        vec![115u8, 117u8, 99u8, 99u8, 101u8, 115u8, 115u8]
    } else {
        vec![102u8, 97u8, 105u8, 108u8, 117u8, 114u8, 101u8]
    };
    assert(r@ =~= marker_name(success));
    r
}

/// Whether a marker read from disk matches: it exists, and, when `compare`
/// holds, its content is `expected`.
fn content_matches(content: &Option<Vec<u8>>, compare: bool, expected: &Vec<u8>) -> (r: bool)
    ensures
        r == match crate::strategy::bytes_view(*content) {
            Some(c) => !compare || c == expected@,
            None => false,
        },
{
    match content {
        Some(c) => !compare || bytes_eq(c, expected),
        None => false,
    }
}

/// `path` with `.` and `ext` appended.
pub fn append_ext(ext: &Vec<u8>, path: &Vec<u8>) -> (r: Vec<u8>)
    ensures
        r@ == path@.push(46u8) + ext@,
{
    let mut r: Vec<u8> = Vec::new();
    push_all(&mut r, path);
    r.push(46u8);
    push_all(&mut r, ext);
    r
}

impl Default for Markers {
    /// Failure markers, success markers and hashes on; markers beside the output.
    fn default() -> (r: Markers)
        ensures
            r == (Markers { failure_marker: true, success_marker: true, hashes: true, folder: false }),
    {
        Markers { failure_marker: true, success_marker: true, hashes: true, folder: false }
    }
}

impl Markers {
    /// Whether a call that ended with `outcome` leaves a marker.
    pub open spec fn writes_marker(&self, outcome: Outcome) -> bool {
        match outcome {
            Outcome::Succeeded => self.success_marker,
            Outcome::Failed { retriable } => self.failure_marker && !retriable,
        }
    }

    /// The path of the success (or failure) marker of `output`.
    pub fn marker_path(&self, success: bool, output: &Vec<u8>) -> (r: Vec<u8>)
        ensures
            r@ == marker_path_spec(self.folder, success, output@),
    {
        let name = marker_name_bytes(success);
        if !self.folder {
            return append_ext(&name, output);
        }
        let mut r: Vec<u8> = Vec::new();
        push_all(&mut r, output);
        if output.len() != 0 && output[output.len() - 1] != 47u8 {
            r.push(47u8);
        }
        push_all(&mut r, &name);
        r
    }

    /// The content of a marker written for the call `(args_hash, code_hash)`.
    pub fn hashes_str(&self, args_hash: u64, code_hash: u64) -> (r: Vec<u8>)
        ensures
            r@ == payload(self.hashes, args_hash, code_hash),
    {
        let mut r: Vec<u8> = Vec::new();
        if self.hashes {
            push_decimal(args_hash, &mut r);
            r.push(10u8);
            push_decimal(code_hash, &mut r);
        }
        assert(r@ =~= payload(self.hashes, args_hash, code_hash));
        r
    }

    /// Keep the markers inside the output, which is a directory.
    pub fn folder(self) -> (r: Self)
        ensures
            r == (Markers { folder: true, ..self }),
    {
        Markers { folder: true, ..self }
    }
}

impl Strategy for Markers {
    /// A matching failure marker wins; then, with success markers, a matching
    /// one skips only if the output exists; without them the output's
    /// existence decides.
    open spec fn skip_spec(&self, disk: DiskView, args_hash: u64, code_hash: u64) -> bool {
        if self.failure_marker && marker_matches(disk.failure, self.hashes, args_hash, code_hash) {
            true
        } else if self.success_marker {
            marker_matches(disk.success, self.hashes, args_hash, code_hash) && disk.output_exists
        } else {
            disk.output_exists
        }
    }

    open spec fn markers_spec(&self, output: Seq<u8>) -> Option<(Seq<u8>, Seq<u8>)> {
        Some(
            (
                marker_path_spec(self.folder, true, output),
                marker_path_spec(self.folder, false, output),
            ),
        )
    }

    /// A success writes the success marker when those are on; a failure that
    /// is not retriable writes the failure marker when those are on. The
    /// opposite marker is removed.
    open spec fn update_spec(
        &self,
        outcome: Outcome,
        output: Seq<u8>,
        args_hash: u64,
        code_hash: u64,
    ) -> Option<UpdateView> {
        if self.writes_marker(outcome) {
            let success = outcome is Succeeded;
            Some(
                UpdateView {
                    success,
                    create_dir: self.folder,
                    write_path: marker_path_spec(self.folder, success, output),
                    content: payload(self.hashes, args_hash, code_hash),
                    remove_path: marker_path_spec(self.folder, !success, output),
                },
            )
        } else {
            None
        }
    }

    fn skip(&self, disk: &Disk, args_hash: u64, code_hash: u64) -> (r: bool) {
        let expected = self.hashes_str(args_hash, code_hash);
        if self.failure_marker && content_matches(&disk.failure, self.hashes, &expected) {
            return true;
        }
        if self.success_marker {
            content_matches(&disk.success, self.hashes, &expected) && disk.output_exists
        } else {
            disk.output_exists
        }
    }

    fn markers(&self, output: &Vec<u8>) -> (r: Option<(Vec<u8>, Vec<u8>)>) {
        Some((self.marker_path(true, output), self.marker_path(false, output)))
    }

    fn callback(&self, outcome: Outcome, output: &Vec<u8>, args_hash: u64, code_hash: u64) -> (r:
        Option<MarkerUpdate>) {
        let write = match outcome {
            Outcome::Succeeded => self.success_marker,
            Outcome::Failed { retriable } => self.failure_marker && !retriable,
        };
        if !write {
            return None;
        }
        let success = match outcome {
            Outcome::Succeeded => true,
            Outcome::Failed { .. } => false,
        };
        Some(
            MarkerUpdate {
                success,
                create_dir: self.folder,
                write_path: self.marker_path(success, output),
                content: self.hashes_str(args_hash, code_hash),
                remove_path: self.marker_path(!success, output),
            },
        )
    }
}

/// A marker written for a call reads back as that call: its content matches
/// the fingerprint it was written with, and, with hashes on, no other one.
pub proof fn lemma_payload_round_trip(
    hashes: bool,
    args_hash: u64,
    code_hash: u64,
    other_args: u64,
    other_code: u64,
)
    ensures
        marker_matches(Some(payload(hashes, args_hash, code_hash)), hashes, args_hash, code_hash),
        hashes && marker_matches(
            Some(payload(hashes, args_hash, code_hash)),
            hashes,
            other_args,
            other_code,
        ) ==> other_args == args_hash && other_code == code_hash,
{
    if hashes && payload(hashes, args_hash, code_hash) == payload(hashes, other_args, other_code) {
        lemma_payload_injective(args_hash, code_hash, other_args, other_code);
    }
}

proof fn lemma_payload_injective(a: u64, c: u64, a2: u64, c2: u64)
    requires
        payload(true, a, c) == payload(true, a2, c2),
    ensures
        a == a2 && c == c2,
{
    let da = decimal(a as nat);
    let da2 = decimal(a2 as nat);
    let dc = decimal(c as nat);
    let dc2 = decimal(c2 as nat);
    let p = payload(true, a, c);
    lemma_decimal_digits(a as nat);
    lemma_decimal_digits(a2 as nat);
    lemma_decimal_digits(c as nat);
    lemma_decimal_digits(c2 as nat);
    assert(p == da.push(10u8) + dc);
    assert(p == da2.push(10u8) + dc2);
    if da.len() < da2.len() {
        assert(p[da.len() as int] == 10u8);
        assert(p[da.len() as int] == da2[da.len() as int]);
        assert(is_digit(da2[da.len() as int]));
    } else if da2.len() < da.len() {
        assert(p[da2.len() as int] == 10u8);
        assert(p[da2.len() as int] == da[da2.len() as int]);
        assert(is_digit(da[da2.len() as int]));
    }
    assert(da.len() == da2.len());
    assert(da =~= p.subrange(0, da.len() as int));
    assert(da2 =~= p.subrange(0, da.len() as int));
    assert(dc =~= p.subrange(da.len() as int + 1, p.len() as int));
    assert(dc2 =~= p.subrange(da.len() as int + 1, p.len() as int));
    lemma_decimal_injective(a as nat, a2 as nat);
    lemma_decimal_injective(c as nat, c2 as nat);
}

/// A success marker for the call, with the output present, always skips.
pub proof fn lemma_success_with_output_skips(
    m: Markers,
    disk: DiskView,
    args_hash: u64,
    code_hash: u64,
)
    requires
        marker_matches(disk.success, m.hashes, args_hash, code_hash),
        disk.output_exists,
    ensures
        m.skip_spec(disk, args_hash, code_hash),
{
}

/// A success marker for the call without the output does not skip: the lost
/// artifact is made again. A failure marker for the same call takes
/// precedence, so it is left out.
pub proof fn lemma_success_without_output_reruns(
    m: Markers,
    disk: DiskView,
    args_hash: u64,
    code_hash: u64,
)
    requires
        marker_matches(disk.success, m.hashes, args_hash, code_hash),
        !disk.output_exists,
        !(m.failure_marker && marker_matches(disk.failure, m.hashes, args_hash, code_hash)),
    ensures
        !m.skip_spec(disk, args_hash, code_hash),
{
}

/// After a failure that is not retriable, with failure markers on, a failure
/// marker for the call is written; the same call is then skipped. With hashes
/// and success markers on, a call whose argument or code hash differs is not.
pub proof fn lemma_permanent_failure_sticks(
    m: Markers,
    disk: DiskView,
    output: Seq<u8>,
    args_hash: u64,
    code_hash: u64,
    other_args: u64,
    other_code: u64,
)
    requires
        m.failure_marker,
    ensures
        ({
            let after = after_update(
                disk,
                m.update_spec(Outcome::Failed { retriable: false }, output, args_hash, code_hash),
            );
            &&& after.failure == Some(payload(m.hashes, args_hash, code_hash))
            &&& m.skip_spec(after, args_hash, code_hash)
            &&& (m.hashes && m.success_marker && (other_args != args_hash || other_code
                != code_hash)) ==> !m.skip_spec(after, other_args, other_code)
        }),
{
    lemma_payload_round_trip(m.hashes, args_hash, code_hash, other_args, other_code);
}

/// After a retriable failure nothing is written: what is on disk stays as it
/// was, so a call that was not skipped before is still not skipped.
pub proof fn lemma_retriable_failure_reruns(
    m: Markers,
    disk: DiskView,
    output: Seq<u8>,
    args_hash: u64,
    code_hash: u64,
)
    ensures
        m.update_spec(Outcome::Failed { retriable: true }, output, args_hash, code_hash) is None,
        after_update(
            disk,
            m.update_spec(Outcome::Failed { retriable: true }, output, args_hash, code_hash),
        ) == disk,
        !m.skip_spec(disk, args_hash, code_hash) ==> !m.skip_spec(
            after_update(
                disk,
                m.update_spec(Outcome::Failed { retriable: true }, output, args_hash, code_hash),
            ),
            args_hash,
            code_hash,
        ),
{
}

/// Writing one marker removes the other: after any recorded outcome exactly
/// one of the two markers is present, the one of that outcome.
pub proof fn lemma_markers_exclusive(
    m: Markers,
    disk: DiskView,
    outcome: Outcome,
    output: Seq<u8>,
    args_hash: u64,
    code_hash: u64,
)
    requires
        m.update_spec(outcome, output, args_hash, code_hash) is Some,
    ensures
        ({
            let after = after_update(disk, m.update_spec(outcome, output, args_hash, code_hash));
            &&& outcome is Succeeded ==> after.success is Some && after.failure is None
            &&& outcome is Failed ==> after.failure is Some && after.success is None
        }),
{
}

/// A marker just written reads back as the fingerprint it was written with:
/// its content is that call's payload, it matches that call, and, with hashes
/// on, it matches no other.
pub proof fn lemma_written_marker_reads_back(
    m: Markers,
    disk: DiskView,
    outcome: Outcome,
    output: Seq<u8>,
    args_hash: u64,
    code_hash: u64,
    other_args: u64,
    other_code: u64,
)
    requires
        m.update_spec(outcome, output, args_hash, code_hash) is Some,
    ensures
        ({
            let after = after_update(disk, m.update_spec(outcome, output, args_hash, code_hash));
            let written = if outcome is Succeeded {
                after.success
            } else {
                after.failure
            };
            &&& written == Some(payload(m.hashes, args_hash, code_hash))
            &&& marker_matches(written, m.hashes, args_hash, code_hash)
            &&& m.hashes && marker_matches(written, m.hashes, other_args, other_code) ==> other_args
                == args_hash && other_code == code_hash
        }),
{
    lemma_payload_round_trip(m.hashes, args_hash, code_hash, other_args, other_code);
}

} // verus!
