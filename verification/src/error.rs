//! Why a command was refused.

use vstd::prelude::*;

verus! {

/// Why a command was refused.
#[derive(Clone, Copy, PartialEq, Eq, Structural, Debug)]
pub enum AppError {
    IntervalsNotPositive,
    IntervalTooSmall,
    MajorBelowMinor,
    SurfaceNotFound,
    ZRangeInvalid,
    ZRangeOutside,
    NoZExtent,
    TooManyLevels,
    NoActiveProject,
    LayerNameBlank,
    LayerNameTaken,
    OutputLayerGone,
    /// The project is no longer open.
    ProjectGone,
    /// The browser's event loop cannot be reached.
    LoopUnavailable,
    TextEditPending,
    SavePending,
    RevertPending,
    PathBusy,
    PathInUse,
    NothingToExport,
    NeverSaved,
    OpenPending,
    DeletePending,
    SwitchPending,
    UnsupportedFile,
    FileMissing,
    DialogClosed,
    LayoutRefused,
    RendererMissing,
    NothingVisible,
    CaptureFailed,
    ProjectNotMade,
    UnknownMeshFormat,
    ImportPending,
    BlockModelNotFound,
    LayerNotFound,
    NoFilesChosen,
    OtherFilesChosen,
    TooManyFiles,
    SystemUnresolved,
    SystemNameBlank,
    SystemNameTaken,
    SystemMissing,
    SystemInUse,
    ConfigNotWritten,
    WrongProject,
    DataUnavailable,
    EmptySelection,
    InvalidTransform,
    NeedsGrid,
    Cancelled,
    NoSurfaceChosen,
    RasterNotFound,
    NothingOverlaps,
    PatternNameBlank,
    DepthNotPositive,
    DiameterNotPositive,
    PatternEmpty,
    PatternTooLarge,
    DatasetNotFound,
    NoVariables,
    VariableTwice,
    VariableNotNumeric,
    TooFewSamples,
    NothingEstimated,
    NothingMatches,
    BlockIndexOutside,
    BlockBoundsInvalid,
    NoFaces,
    MeshTooLarge,
    FilesDoNotMatch,
    ImportedWithProject,
}

} // verus!
