//! The steps of the download of one video and the order in which they are
//! taken.

use crate::errors::{DownloadError, DownloadFileError};
use vstd::prelude::*;

verus! {

/// The steps of the download of one video, in their order.
#[derive(Debug, Clone, Copy, PartialEq, Eq)]
pub enum Stage {
    /// See whether the finished file exists already.
    CheckTarget,
    /// See whether the video's folder exists, is a folder and is empty.
    InspectFolder,
    /// Make the video's folder.
    CreateFolder,
    /// Ask for the access token.
    ResolveToken,
    /// Fetch the master playlist and choose the quality.
    FetchMasterPlaylist,
    /// Fetch and read the media playlist.
    FetchMediaPlaylist,
    /// Fetch the segments.
    FetchParts,
    /// Sort the segment files and join them into the stream file, each being
    /// removed once it is joined.
    CombineParts,
    /// Make the container file of the stream file.
    Remux,
    /// Remove the stream file.
    RemoveStream,
    /// Give the container file the name of the finished file.
    MoveToTarget,
    /// Remove the video's folder.
    RemoveFolder,
    /// Nothing is left to do.
    Done,
}

impl Stage {
    /// The place of the step in the order of the download.
    pub open spec fn place(self) -> nat {
        match self {
            Stage::CheckTarget => 0,
            Stage::InspectFolder => 1,
            Stage::CreateFolder => 2,
            Stage::ResolveToken => 3,
            Stage::FetchMasterPlaylist => 4,
            Stage::FetchMediaPlaylist => 5,
            Stage::FetchParts => 6,
            Stage::CombineParts => 7,
            Stage::Remux => 8,
            Stage::RemoveStream => 9,
            Stage::MoveToTarget => 10,
            Stage::RemoveFolder => 11,
            Stage::Done => 12,
        }
    }

    /// The step that follows when this one has succeeded.
    pub open spec fn successor(self) -> Stage {
        match self {
            Stage::CheckTarget => Stage::InspectFolder,
            Stage::InspectFolder => Stage::CreateFolder,
            Stage::CreateFolder => Stage::ResolveToken,
            Stage::ResolveToken => Stage::FetchMasterPlaylist,
            Stage::FetchMasterPlaylist => Stage::FetchMediaPlaylist,
            Stage::FetchMediaPlaylist => Stage::FetchParts,
            Stage::FetchParts => Stage::CombineParts,
            Stage::CombineParts => Stage::Remux,
            Stage::Remux => Stage::RemoveStream,
            Stage::RemoveStream => Stage::MoveToTarget,
            Stage::MoveToTarget => Stage::RemoveFolder,
            Stage::RemoveFolder => Stage::Done,
            Stage::Done => Stage::Done,
        }
    }

    /// Whether the step sends a request.
    pub open spec fn uses_network(self) -> bool {
        self is ResolveToken || self is FetchMasterPlaylist || self is FetchMediaPlaylist
            || self is FetchParts
    }

    /// Whether the step changes anything on the file system.
    pub open spec fn changes_files(self) -> bool {
        self is CreateFolder || self is FetchParts || self is CombineParts || self is Remux
            || self is RemoveStream || self is MoveToTarget || self is RemoveFolder
    }

    pub fn next(self) -> (following: Stage)
        ensures
            following == self.successor(),
    {
        match self {
            Stage::CheckTarget => Stage::InspectFolder,
            Stage::InspectFolder => Stage::CreateFolder,
            Stage::CreateFolder => Stage::ResolveToken,
            Stage::ResolveToken => Stage::FetchMasterPlaylist,
            Stage::FetchMasterPlaylist => Stage::FetchMediaPlaylist,
            Stage::FetchMediaPlaylist => Stage::FetchParts,
            Stage::FetchParts => Stage::CombineParts,
            Stage::CombineParts => Stage::Remux,
            Stage::Remux => Stage::RemoveStream,
            Stage::RemoveStream => Stage::MoveToTarget,
            Stage::MoveToTarget => Stage::RemoveFolder,
            Stage::RemoveFolder => Stage::Done,
            Stage::Done => Stage::Done,
        }
    }
}

/// What was found in the place of the video's folder.
#[derive(Debug, Clone, Copy, PartialEq, Eq)]
pub enum FolderState {
    Missing,
    NotADirectory,
    NotEmpty,
    Empty,
}

/// What the caller found on carrying out a step.
pub struct Finding {
    /// Whether the finished file exists already.
    pub target_exists: bool,
    /// What stands in the place of the video's folder.
    pub folder: FolderState,
    /// Whether the step did what it was to do.
    pub success: bool,
}

/// The step that follows `stage` after what was found on it, or nothing where
/// the download ends there. The look at the finished file ends the download
/// where the file exists. The look at the folder ends it where something else
/// than an empty folder stands there, and leads past the making of the folder
/// where an empty one does. Any other step is followed by the next in the
/// order where it succeeded, and ends the download where it failed.
pub open spec fn following(stage: Stage, found: Finding) -> Option<Stage> {
    match stage {
        Stage::CheckTarget => if found.target_exists {
            None
        } else {
            Some(Stage::InspectFolder)
        },
        Stage::InspectFolder => match found.folder {
            FolderState::Missing => Some(Stage::CreateFolder),
            FolderState::Empty => Some(Stage::ResolveToken),
            FolderState::NotADirectory => None,
            FolderState::NotEmpty => None,
        },
        Stage::Done => None,
        _ => if found.success {
            Some(stage.successor())
        } else {
            None
        },
    }
}

/// The step with which the download of a video begins: the look at the
/// finished file, which sends nothing and changes nothing.
pub fn first_stage() -> (stage: Stage)
    ensures
        stage == Stage::CheckTarget,
{
    Stage::CheckTarget
}

/// What follows the look at the finished file. Where it exists already the
/// download ends at once with `TargetAlreadyExists` and its path; else the
/// video's folder is inspected.
pub fn after_target_check(target_exists: bool, final_path: &str) -> (next: Result<
    Stage,
    DownloadError,
>)
    ensures
        target_exists ==> (next matches Err(
            DownloadError::File(DownloadFileError::TargetAlreadyExists(path)),
        ) && path@ == final_path@),
        !target_exists ==> next == Ok::<Stage, DownloadError>(Stage::InspectFolder),
        forall|found: Finding|
            found.target_exists == target_exists ==> (match #[trigger] following(
                Stage::CheckTarget,
                found,
            ) {
                Some(stage) => next == Ok::<Stage, DownloadError>(stage),
                None => next is Err,
            }),
{
    if target_exists {
        Err(DownloadError::File(DownloadFileError::TargetAlreadyExists(final_path.to_owned())))
    } else {
        Ok(Stage::InspectFolder)
    }
}

/// What follows the look at the video's folder: a missing folder is made, an
/// empty one is used, anything else ends the download.
pub fn after_folder_inspection(folder: FolderState, folder_path: &str) -> (next: Result<
    Stage,
    DownloadError,
>)
    ensures
        match folder {
            FolderState::Missing => next == Ok::<Stage, DownloadError>(Stage::CreateFolder),
            FolderState::Empty => next == Ok::<Stage, DownloadError>(Stage::ResolveToken),
            FolderState::NotADirectory => next matches Err(
                DownloadError::File(DownloadFileError::TargetFolderIsNotADirectory(path)),
            ) && path@ == folder_path@,
            FolderState::NotEmpty => next matches Err(
                DownloadError::File(DownloadFileError::TargetFolderIsNotEmpty(path)),
            ) && path@ == folder_path@,
        },
        forall|found: Finding|
            found.folder == folder ==> (match #[trigger] following(Stage::InspectFolder, found) {
                Some(stage) => next == Ok::<Stage, DownloadError>(stage),
                None => next is Err,
            }),
{
    match folder {
        FolderState::Missing => Ok(Stage::CreateFolder),
        FolderState::Empty => Ok(Stage::ResolveToken),
        FolderState::NotADirectory => Err(
            DownloadError::File(
                DownloadFileError::TargetFolderIsNotADirectory(folder_path.to_owned()),
            ),
        ),
        FolderState::NotEmpty => Err(
            DownloadError::File(DownloadFileError::TargetFolderIsNotEmpty(folder_path.to_owned())),
        ),
    }
}

/// What follows a step, other than the two looks, that has been carried out:
/// the next step where it succeeded, and the end of the download with its
/// failure where it failed.
pub fn advance(stage: Stage, outcome: Result<(), DownloadError>) -> (next: Result<
    Stage,
    DownloadError,
>)
    ensures
        match outcome {
            Ok(_) => next == Ok::<Stage, DownloadError>(stage.successor()),
            Err(error) => next == Err::<Stage, DownloadError>(error),
        },
        stage !is CheckTarget && stage !is InspectFolder && stage !is Done ==> forall|
            found: Finding,
        |
            found.success == (outcome is Ok) ==> (match #[trigger] following(stage, found) {
                Some(stage) => next == Ok::<Stage, DownloadError>(stage),
                None => next is Err,
            }),
{
    match outcome {
        Ok(_) => Ok(stage.next()),
        Err(error) => Err(error),
    }
}

/// The steps that a download carries out when the findings on its steps are
/// `found`, one finding for each step: the first step, and after each step
/// the one that follows on its finding, until the download ends or the
/// findings do.
pub open spec fn steps_taken(found: Seq<Finding>) -> Seq<Stage>
    decreases found.len(),
{
    if found.len() == 0 {
        seq![Stage::CheckTarget]
    } else {
        let before = steps_taken(found.drop_last());
        if before.len() == found.len() {
            match following(before.last(), found.last()) {
                Some(stage) => before.push(stage),
                None => before,
            }
        } else {
            before
        }
    }
}

/// Where the finished file exists already, the download is over after the
/// look at it: whatever is found later, no other step is taken, so nothing is
/// sent and nothing on the file system is changed.
pub proof fn lemma_existing_target_ends_download(found: Seq<Finding>)
    requires
        found.len() > 0,
        found[0].target_exists,
    ensures
        steps_taken(found) == seq![Stage::CheckTarget],
        forall|i: int|
            0 <= i < steps_taken(found).len() ==> !(#[trigger] steps_taken(found)[i]).uses_network()
                && !steps_taken(found)[i].changes_files(),
    decreases found.len(),
{
    if found.len() == 1 {
        assert(found.drop_last() =~= Seq::<Finding>::empty());
        assert(steps_taken(found.drop_last()) == seq![Stage::CheckTarget]);
    } else {
        lemma_existing_target_ends_download(found.drop_last());
    }
}

/// A download takes its steps in their order, and no step twice.
pub proof fn lemma_steps_ascend(found: Seq<Finding>)
    ensures
        1 <= steps_taken(found).len() <= found.len() + 1,
        steps_taken(found)[0] == Stage::CheckTarget,
        forall|i: int, j: int|
            0 <= i < j < steps_taken(found).len() ==> (#[trigger] steps_taken(found)[i]).place() < (
            #[trigger] steps_taken(found)[j]).place(),
    decreases found.len(),
{
    if found.len() > 0 {
        lemma_steps_ascend(found.drop_last());
        let before = steps_taken(found.drop_last());
        if before.len() == found.len() {
            match following(before.last(), found.last()) {
                Some(stage) => {
                    let after = before.push(stage);
                    assert(stage.place() > before.last().place());
                    assert forall|i: int, j: int| 0 <= i < j < after.len() implies (
                    #[trigger] after[i]).place() < (#[trigger] after[j]).place() by {
                        if j == before.len() {
                            if i < before.len() - 1 {
                                assert(before[i].place() < before[before.len() - 1].place());
                            }
                        } else {
                            assert(after[i] == before[i] && after[j] == before[j]);
                        }
                    }
                },
                None => {},
            }
        }
    }
}

/// The steps follow each other in one order, and only the last has no other
/// behind it.
pub proof fn lemma_stages_in_order(stage: Stage)
    ensures
        stage !is Done ==> stage.successor().place() == stage.place() + 1,
        stage is Done <==> stage.successor() == stage,
{
}

/// Nothing is sent and nothing on the file system is changed before the look
/// at the finished file and the look at the video's folder have both passed.
pub proof fn lemma_checks_come_first(stage: Stage)
    requires
        stage.uses_network() || stage.changes_files(),
    ensures
        stage.place() > Stage::CheckTarget.place(),
        stage.place() > Stage::InspectFolder.place(),
{
}

} // verus!
