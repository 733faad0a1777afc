//! The policy interface: decide whether a call may be skipped, and what to
//! record once it has run.
use vstd::prelude::*;

verus! {

/// What a skip decision reads from disk for one output location: whether the
/// output exists, and the contents of its success and failure markers (`None`
/// where a marker is absent or could not be read).
pub struct Disk {
    pub output_exists: bool,
    pub success: Option<Vec<u8>>,
    pub failure: Option<Vec<u8>>,
}

/// The mathematical value of a [`Disk`].
pub struct DiskView {
    pub output_exists: bool,
    pub success: Option<Seq<u8>>,
    pub failure: Option<Seq<u8>>,
}

pub open spec fn bytes_view(o: Option<Vec<u8>>) -> Option<Seq<u8>> {
    match o {
        Some(v) => Some(v@),
        None => None,
    }
}

impl View for Disk {
    type V = DiskView;

    open spec fn view(&self) -> DiskView {
        DiskView {
            output_exists: self.output_exists,
            success: bytes_view(self.success),
            failure: bytes_view(self.failure),
        }
    }
}

/// How a call that was not skipped ended.
#[derive(Clone, Copy, Debug, PartialEq, Eq, Structural)]
pub enum Outcome {
    Succeeded,
    /// The operation returned an error; `retriable` is the caller's
    /// classification of that error.
    Failed { retriable: bool },
}

/// The disk changes that record a call's outcome: create the output directory
/// when `create_dir` holds, write `content` at `write_path`, then remove the
/// opposite marker at `remove_path`. `success` tells which marker is written.
pub struct MarkerUpdate {
    pub success: bool,
    pub create_dir: bool,
    pub write_path: Vec<u8>,
    pub content: Vec<u8>,
    pub remove_path: Vec<u8>,
}

/// The mathematical value of a [`MarkerUpdate`].
pub struct UpdateView {
    pub success: bool,
    pub create_dir: bool,
    pub write_path: Seq<u8>,
    pub content: Seq<u8>,
    pub remove_path: Seq<u8>,
}

impl View for MarkerUpdate {
    type V = UpdateView;

    open spec fn view(&self) -> UpdateView {
        UpdateView {
            success: self.success,
            create_dir: self.create_dir,
            write_path: self.write_path@,
            content: self.content@,
            remove_path: self.remove_path@,
        }
    }
}

pub open spec fn update_view(u: Option<MarkerUpdate>) -> Option<UpdateView> {
    match u {
        Some(v) => Some(v@),
        None => None,
    }
}

/// The markers of one output location after `u` has been carried out on
/// `disk`: the marker written holds the new content and the other one is gone.
/// Creating the output directory makes the output exist.
pub open spec fn after_update(disk: DiskView, u: Option<UpdateView>) -> DiskView {
    match u {
        None => disk,
        Some(u) => DiskView {
            output_exists: disk.output_exists || u.create_dir,
            success: if u.success { Some(u.content) } else { None },
            failure: if u.success { None } else { Some(u.content) },
        },
    }
}

/// A skip/record policy.
pub trait Strategy {
    /// Whether a call with these hashes is skipped, given what is on disk.
    spec fn skip_spec(&self, disk: DiskView, args_hash: u64, code_hash: u64) -> bool;

    /// The paths of the (success, failure) markers of `output`, if the policy
    /// keeps markers.
    spec fn markers_spec(&self, output: Seq<u8>) -> Option<(Seq<u8>, Seq<u8>)>;

    /// What is recorded after a call that ran and ended with `outcome`.
    spec fn update_spec(
        &self,
        outcome: Outcome,
        output: Seq<u8>,
        args_hash: u64,
        code_hash: u64,
    ) -> Option<UpdateView>;

    /// Should generating `output` be skipped? Reading `disk` must not change it.
    fn skip(&self, disk: &Disk, args_hash: u64, code_hash: u64) -> (r: bool)
        ensures
            r == self.skip_spec(disk@, args_hash, code_hash),
    ;

    /// The marker paths that a skip decision on `output` reads.
    fn markers(&self, output: &Vec<u8>) -> (r: Option<(Vec<u8>, Vec<u8>)>)
        ensures
            match r {
                Some((s, f)) => self.markers_spec(output@) == Some((s@, f@)),
                None => self.markers_spec(output@) is None,
            },
    ;

    /// Called once after a call that was not skipped has run.
    fn callback(&self, outcome: Outcome, output: &Vec<u8>, args_hash: u64, code_hash: u64) -> (r:
        Option<MarkerUpdate>)
        ensures
            update_view(r) == self.update_spec(outcome, output@, args_hash, code_hash),
    ;
}

/// Skip exactly when the output already exists; record nothing.
pub struct FileExists;

impl Strategy for FileExists {
    open spec fn skip_spec(&self, disk: DiskView, args_hash: u64, code_hash: u64) -> bool {
        disk.output_exists
    }

    open spec fn markers_spec(&self, output: Seq<u8>) -> Option<(Seq<u8>, Seq<u8>)> {
        None
    }

    open spec fn update_spec(
        &self,
        outcome: Outcome,
        output: Seq<u8>,
        args_hash: u64,
        code_hash: u64,
    ) -> Option<UpdateView> {
        None
    }

    fn skip(&self, disk: &Disk, args_hash: u64, code_hash: u64) -> (r: bool) {
        disk.output_exists
    }

    fn markers(&self, output: &Vec<u8>) -> (r: Option<(Vec<u8>, Vec<u8>)>) {
        None
    }

    fn callback(&self, outcome: Outcome, output: &Vec<u8>, args_hash: u64, code_hash: u64) -> (r:
        Option<MarkerUpdate>) {
        None
    }
}

} // verus!
