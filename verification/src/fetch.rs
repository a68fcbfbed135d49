//! The steps of fetching a version of a package into the cache.
//!
//! A fetch alternates between decisions, taken here, and work on the disk
//! and on the network, done by the caller. The caller starts with
//! `FetchJob::start`, does the action it is given, reports what came of it
//! to `FetchJob::next`, and goes on until it is given the outcome.
//!
//! A version from a git checkout is repacked from the checkout in the
//! build graph. Any other version is taken from the registry of the host if
//! that has it unpacked, else from the packed form in the cache, which is
//! downloaded first if it is not there.

use vstd::prelude::*;
use crate::model::Duplicate;
use crate::paths::{
    archive_file, archive_path, dir_name, join, joined, package_dir_name, unpacked_dir,
    unpacked_path,
};
use crate::url::{download_url, download_url_text, parse_url, parsed_url};
use crate::version::{version_text, Version, VetVersion, VetVersionView};

verus! {

/// Why the packed form of a package could not be unpacked.
#[derive(Clone, Debug, PartialEq, Eq)]
pub enum UnpackError {
    /// The archive or the disk could not be read or written.
    Io { message: String },
    /// An entry of the archive has a path outside the directory of the
    /// package.
    InvalidPaths { entry_path: String, prefix: String },
    /// An entry could not be unpacked.
    Unpack { entry_path: String, message: String },
    /// The marker of a finished unpack could not be written.
    LockCreate { target: String, message: String },
}

/// Why a checkout could not be repacked.
#[derive(Clone, Debug, PartialEq, Eq)]
pub enum UnpackCheckoutError {
    /// The packaging tool could not be run.
    CommandFailed { message: String },
    /// The packaging tool failed.
    BadStatus { status: i32 },
    /// The packaging tool printed something that is not UTF-8.
    BadOutput,
    /// A directory could not be made.
    CreateDirError { path: String, message: String },
    /// A file could not be copied.
    CopyError { target: String, message: String },
    /// The marker of a finished unpack could not be written.
    LockCreate { message: String },
}

/// Why a package could not be fetched.
#[derive(Clone, Debug, PartialEq, Eq)]
pub enum FetchError {
    /// The build graph holds no checkout of the revision.
    UnknownGitRevision { package: String, git_rev: String },
    /// The checkout could not be repacked.
    UnpackCheckout { src: String, error: UnpackCheckoutError },
    /// The package is not in the cache and the network may not be used.
    Frozen { package: String, version: Version },
    /// The address of the package is no URL.
    InvalidUrl { url: String, reason: String },
    /// The download failed.
    Download { url: String, message: String },
    /// The packed form could not be opened after the download.
    OpenCached { target: String, message: String },
    /// The packed form could not be unpacked.
    Unpack { archive: String, failure: UnpackError },
}

/// What is to be fetched, and what is known beforehand.
#[derive(Clone, Debug, PartialEq, Eq)]
pub struct FetchJob {
    pub package: String,
    pub version: VetVersion,
    /// The root of the cache.
    pub root: String,
    /// The directory of the unpacked packages of the registry of the host,
    /// if there is one.
    pub registry_src: Option<String>,
    /// Whether the network may be used.
    pub network: bool,
    /// The directory of the checkout of the version in the build graph, if
    /// there is one.
    pub checkout: Option<String>,
}

pub struct FetchJobView {
    pub package: Seq<char>,
    pub version: VetVersionView,
    pub root: Seq<char>,
    pub registry_src: Option<Seq<char>>,
    pub network: bool,
    pub checkout: Option<Seq<char>>,
}

impl DeepView for FetchJob {
    type V = FetchJobView;

    open spec fn deep_view(&self) -> FetchJobView {
        FetchJobView {
            package: self.package@,
            version: self.version.deep_view(),
            root: self.root@,
            registry_src: self.registry_src.deep_view(),
            network: self.network,
            checkout: self.checkout.deep_view(),
        }
    }
}

/// Where a fetch stands: which action it waits for.
#[derive(Clone, Copy, Debug, PartialEq, Eq, Structural)]
pub enum FetchState {
    /// Checking the marker of the repacked checkout.
    CheckRepacked,
    /// Repacking the checkout.
    RepackCheckout,
    /// Checking the marker of the package in the registry of the host.
    CheckRegistry,
    /// Opening the packed form in the cache.
    OpenCached,
    /// Downloading the packed form.
    Download,
    /// Opening the packed form that was downloaded.
    OpenDownloaded,
    /// Checking the marker of the unpacked package in the cache.
    CheckUnpacked,
    /// Unpacking the packed form.
    Unpack,
}

/// Work that the caller does for a fetch.
#[derive(Clone, Debug, PartialEq, Eq)]
pub enum FetchAction {
    /// Tell whether the directory holds the marker of a finished unpack.
    CheckMarker { dir: String },
    /// Repack the checkout into the directory and write the marker.
    UnpackCheckout { checkout: String, dir: String },
    /// Open the packed form and stamp it with the present time.
    OpenCached { archive: String },
    /// Download the address into the file.
    Download { url: String, archive: String },
    /// Open the packed form.
    OpenDownloaded { archive: String },
    /// Unpack the packed form into the directory and write the marker.
    Unpack { archive: String, dir: String },
}

pub enum FetchActionView {
    CheckMarker { dir: Seq<char> },
    UnpackCheckout { checkout: Seq<char>, dir: Seq<char> },
    OpenCached { archive: Seq<char> },
    Download { url: Seq<char>, archive: Seq<char> },
    OpenDownloaded { archive: Seq<char> },
    Unpack { archive: Seq<char>, dir: Seq<char> },
}

impl DeepView for FetchAction {
    type V = FetchActionView;

    open spec fn deep_view(&self) -> FetchActionView {
        match self {
            FetchAction::CheckMarker { dir } => FetchActionView::CheckMarker { dir: dir@ },
            FetchAction::UnpackCheckout { checkout, dir } => FetchActionView::UnpackCheckout {
                checkout: checkout@,
                dir: dir@,
            },
            FetchAction::OpenCached { archive } => FetchActionView::OpenCached {
                archive: archive@,
            },
            FetchAction::Download { url, archive } => FetchActionView::Download {
                url: url@,
                archive: archive@,
            },
            FetchAction::OpenDownloaded { archive } => FetchActionView::OpenDownloaded {
                archive: archive@,
            },
            FetchAction::Unpack { archive, dir } => FetchActionView::Unpack {
                archive: archive@,
                dir: dir@,
            },
        }
    }
}

/// What came of the action that a fetch waited for.
#[derive(Debug, PartialEq, Eq)]
pub enum FetchEvent {
    /// Whether the marker was there and right.
    Marker { valid: bool },
    /// The checkout was repacked, or why it was not.
    Repacked { repacked: Result<(), UnpackCheckoutError> },
    /// Whether the packed form in the cache could be opened.
    Opened { found: bool },
    /// The download is done, or why it failed.
    Downloaded { downloaded: Result<(), String> },
    /// The downloaded file was opened, or why it could not be.
    Reopened { reopened: Result<(), String> },
    /// The packed form was unpacked, or why it was not.
    Unpacked { unpacked: Result<(), UnpackError> },
}

/// How a fetch goes on.
#[derive(Debug, PartialEq, Eq)]
pub enum FetchStep {
    /// Do the action and report what came of it in the new state.
    Do { state: FetchState, action: FetchAction },
    /// The fetch has ended: with the directory of the unpacked package, or
    /// with the reason of its failure.
    Done { outcome: Result<String, FetchError> },
}

/// The directory into which the job unpacks inside the cache.
pub open spec fn target_dir(job: FetchJobView) -> Seq<char> {
    unpacked_path(job.root, package_dir_name(job.package, job.version))
}

/// The packed form of the job inside the cache.
pub open spec fn target_archive(job: FetchJobView) -> Seq<char> {
    archive_path(job.root, package_dir_name(job.package, job.version))
}

/// The directory of the package in the registry of the host.
pub open spec fn registry_dir(job: FetchJobView) -> Seq<char> {
    joined(job.registry_src->0, package_dir_name(job.package, job.version))
}

/// The address from which the package is downloaded.
pub open spec fn job_url(job: FetchJobView) -> Seq<char> {
    download_url(job.package, version_text(job.version.semver))
}

/// Whether the job can be in a state, and an event is what came of the
/// action of that state. Only a version from a git checkout is looked for
/// in its repacked form and repacked; only another version is looked for
/// in the registry of the host and in the cache, downloaded where the
/// network may be used, and unpacked.
pub open spec fn fits(job: FetchJobView, state: FetchState, event: FetchEvent) -> bool {
    match state {
        FetchState::CheckRepacked => event is Marker && job.version.git_rev is Some,
        FetchState::RepackCheckout => event is Repacked && job.version.git_rev is Some
            && job.checkout is Some,
        FetchState::CheckRegistry => event is Marker && job.version.git_rev is None
            && job.registry_src is Some,
        FetchState::OpenCached => event is Opened && job.version.git_rev is None,
        FetchState::Download => event is Downloaded && job.version.git_rev is None && job.network,
        FetchState::OpenDownloaded => event is Reopened && job.version.git_rev is None
            && job.network,
        FetchState::CheckUnpacked => event is Marker && job.version.git_rev is None,
        FetchState::Unpack => event is Unpacked && job.version.git_rev is None,
    }
}

/// A step that asks for an action.
pub open spec fn asks(step: FetchStep, state: FetchState, action: FetchActionView) -> bool {
    step matches FetchStep::Do { state: s, action: a } && s == state && a.deep_view() == action
}

/// A step that ends the fetch with a directory.
pub open spec fn hands_out(step: FetchStep, dir: Seq<char>) -> bool {
    step matches FetchStep::Done { outcome: Ok(d) } && d@ == dir
}

/// The first step of a fetch: a version from a git checkout looks for its
/// repacked form; any other version looks into the registry of the host
/// if there is one, else for its packed form in the cache.
pub open spec fn first_step(job: FetchJobView, step: FetchStep) -> bool {
    if job.version.git_rev is Some {
        asks(step, FetchState::CheckRepacked, FetchActionView::CheckMarker { dir: target_dir(job) })
    } else if job.registry_src is Some {
        asks(
            step,
            FetchState::CheckRegistry,
            FetchActionView::CheckMarker { dir: registry_dir(job) },
        )
    } else {
        asks(
            step,
            FetchState::OpenCached,
            FetchActionView::OpenCached { archive: target_archive(job) },
        )
    }
}

/// The step that follows an event.
pub open spec fn next_step(
    job: FetchJobView,
    state: FetchState,
    event: FetchEvent,
    step: FetchStep,
) -> bool {
    match (state, event) {
        (FetchState::CheckRepacked, FetchEvent::Marker { valid }) => if valid {
            hands_out(step, target_dir(job))
        } else {
            match job.checkout {
                Some(checkout) => asks(
                    step,
                    FetchState::RepackCheckout,
                    FetchActionView::UnpackCheckout { checkout, dir: target_dir(job) },
                ),
                None => {
                    &&& step matches FetchStep::Done {
                        outcome: Err(FetchError::UnknownGitRevision { package, git_rev }),
                    }
                    &&& package@ == job.package
                    &&& Some(git_rev@) == job.version.git_rev
                },
            }
        },
        (FetchState::RepackCheckout, FetchEvent::Repacked { repacked }) => match repacked {
            Ok(_) => hands_out(step, target_dir(job)),
            Err(e) => {
                &&& step matches FetchStep::Done {
                    outcome: Err(FetchError::UnpackCheckout { src, error }),
                }
                &&& Some(src@) == job.checkout
                &&& error == e
            },
        },
        (FetchState::CheckRegistry, FetchEvent::Marker { valid }) => if valid {
            hands_out(step, registry_dir(job))
        } else {
            asks(
                step,
                FetchState::OpenCached,
                FetchActionView::OpenCached { archive: target_archive(job) },
            )
        },
        (FetchState::OpenCached, FetchEvent::Opened { found }) => if found {
            asks(
                step,
                FetchState::CheckUnpacked,
                FetchActionView::CheckMarker { dir: target_dir(job) },
            )
        } else if !job.network {
            &&& step matches FetchStep::Done {
                outcome: Err(FetchError::Frozen { package, version }),
            }
            &&& package@ == job.package
            &&& version.deep_view() == job.version.semver
        } else {
            match parsed_url(job_url(job)) {
                Ok(address) => asks(
                    step,
                    FetchState::Download,
                    FetchActionView::Download { url: address, archive: target_archive(job) },
                ),
                Err(reason) => {
                    &&& step matches FetchStep::Done {
                        outcome: Err(FetchError::InvalidUrl { url, reason: why }),
                    }
                    &&& url@ == job_url(job)
                    &&& why@ == reason
                },
            }
        },
        (FetchState::Download, FetchEvent::Downloaded { downloaded }) => match downloaded {
            Ok(_) => asks(
                step,
                FetchState::OpenDownloaded,
                FetchActionView::OpenDownloaded { archive: target_archive(job) },
            ),
            Err(reason) => {
                &&& step matches FetchStep::Done {
                    outcome: Err(FetchError::Download { url, message }),
                }
                &&& url@ == job_url(job)
                &&& message@ == reason@
            },
        },
        (FetchState::OpenDownloaded, FetchEvent::Reopened { reopened }) => match reopened {
            Ok(_) => asks(
                step,
                FetchState::CheckUnpacked,
                FetchActionView::CheckMarker { dir: target_dir(job) },
            ),
            Err(reason) => {
                &&& step matches FetchStep::Done {
                    outcome: Err(FetchError::OpenCached { target, message }),
                }
                &&& target@ == target_archive(job)
                &&& message@ == reason@
            },
        },
        (FetchState::CheckUnpacked, FetchEvent::Marker { valid }) => if valid {
            hands_out(step, target_dir(job))
        } else {
            asks(
                step,
                FetchState::Unpack,
                FetchActionView::Unpack { archive: target_archive(job), dir: target_dir(job) },
            )
        },
        (FetchState::Unpack, FetchEvent::Unpacked { unpacked }) => match unpacked {
            Ok(_) => hands_out(step, target_dir(job)),
            Err(e) => {
                &&& step matches FetchStep::Done {
                    outcome: Err(FetchError::Unpack { archive, failure }),
                }
                &&& archive@ == target_archive(job)
                &&& failure == e
            },
        },
        _ => false,
    }
}

impl FetchJob {
    fn target_dir(&self) -> (r: String)
        ensures
            r@ == target_dir(self.deep_view()),
    {
        unpacked_dir(self.root.as_str(), dir_name(self.package.as_str(), &self.version).as_str())
    }

    fn target_archive(&self) -> (r: String)
        ensures
            r@ == target_archive(self.deep_view()),
    {
        archive_file(self.root.as_str(), dir_name(self.package.as_str(), &self.version).as_str())
    }

    fn open_cached(&self) -> (r: FetchStep)
        ensures
            asks(
                r,
                FetchState::OpenCached,
                FetchActionView::OpenCached { archive: target_archive(self.deep_view()) },
            ),
    {
        FetchStep::Do {
            state: FetchState::OpenCached,
            action: FetchAction::OpenCached { archive: self.target_archive() },
        }
    }

    fn check_unpacked(&self) -> (r: FetchStep)
        ensures
            asks(
                r,
                FetchState::CheckUnpacked,
                FetchActionView::CheckMarker { dir: target_dir(self.deep_view()) },
            ),
    {
        FetchStep::Do {
            state: FetchState::CheckUnpacked,
            action: FetchAction::CheckMarker { dir: self.target_dir() },
        }
    }

    /// The first step of the fetch.
    pub fn start(&self) -> (r: FetchStep)
        ensures
            first_step(self.deep_view(), r),
    {
        if self.version.git_rev.is_some() {
            return FetchStep::Do {
                state: FetchState::CheckRepacked,
                action: FetchAction::CheckMarker { dir: self.target_dir() },
            };
        }
        match &self.registry_src {
            Some(src) => FetchStep::Do {
                state: FetchState::CheckRegistry,
                action: FetchAction::CheckMarker {
                    dir: join(
                        src.as_str(),
                        dir_name(self.package.as_str(), &self.version).as_str(),
                    ),
                },
            },
            None => self.open_cached(),
        }
    }

    /// The step that follows what came of the action of `state`.
    pub fn next(&self, state: FetchState, event: FetchEvent) -> (r: FetchStep)
        requires
            fits(self.deep_view(), state, event),
        ensures
            next_step(self.deep_view(), state, event, r),
    {
        match event {
            FetchEvent::Marker { valid } => {
                match state {
                    FetchState::CheckRepacked => {
                        if valid {
                            return FetchStep::Done { outcome: Ok(self.target_dir()) };
                        }
                        match &self.checkout {
                            Some(checkout) => FetchStep::Do {
                                state: FetchState::RepackCheckout,
                                action: FetchAction::UnpackCheckout {
                                    checkout: checkout.clone(),
                                    dir: self.target_dir(),
                                },
                            },
                            None => {
                                let git_rev = match &self.version.git_rev {
                                    Some(rev) => rev.clone(),
                                    None => String::new(),
                                };
                                FetchStep::Done {
                                    outcome: Err(
                                        FetchError::UnknownGitRevision {
                                            package: self.package.clone(),
                                            git_rev,
                                        },
                                    ),
                                }
                            },
                        }
                    },
                    FetchState::CheckRegistry => {
                        if valid {
                            let src = match &self.registry_src {
                                Some(src) => src.clone(),
                                None => String::new(),
                            };
                            return FetchStep::Done {
                                outcome: Ok(
                                    join(
                                        src.as_str(),
                                        dir_name(self.package.as_str(), &self.version).as_str(),
                                    ),
                                ),
                            };
                        }
                        self.open_cached()
                    },
                    _ => {
                        if valid {
                            return FetchStep::Done { outcome: Ok(self.target_dir()) };
                        }
                        FetchStep::Do {
                            state: FetchState::Unpack,
                            action: FetchAction::Unpack {
                                archive: self.target_archive(),
                                dir: self.target_dir(),
                            },
                        }
                    },
                }
            },
            FetchEvent::Repacked { repacked } => match repacked {
                Ok(_) => FetchStep::Done { outcome: Ok(self.target_dir()) },
                Err(error) => {
                    let src = match &self.checkout {
                        Some(checkout) => checkout.clone(),
                        None => String::new(),
                    };
                    FetchStep::Done { outcome: Err(FetchError::UnpackCheckout { src, error }) }
                },
            },
            FetchEvent::Opened { found } => {
                if found {
                    return self.check_unpacked();
                }
                if !self.network {
                    return FetchStep::Done {
                        outcome: Err(
                            FetchError::Frozen {
                                package: self.package.clone(),
                                version: self.version.semver.duplicate(),
                            },
                        ),
                    };
                }
                let text = download_url_text(
                    self.package.as_str(),
                    self.version.semver.text().as_str(),
                );
                match parse_url(text.as_str()) {
                    Ok(url) => FetchStep::Do {
                        state: FetchState::Download,
                        action: FetchAction::Download { url, archive: self.target_archive() },
                    },
                    Err(reason) => FetchStep::Done {
                        outcome: Err(FetchError::InvalidUrl { url: text, reason }),
                    },
                }
            },
            FetchEvent::Downloaded { downloaded } => match downloaded {
                Ok(_) => FetchStep::Do {
                    state: FetchState::OpenDownloaded,
                    action: FetchAction::OpenDownloaded { archive: self.target_archive() },
                },
                Err(message) => FetchStep::Done {
                    outcome: Err(
                        FetchError::Download {
                            url: download_url_text(
                                self.package.as_str(),
                                self.version.semver.text().as_str(),
                            ),
                            message,
                        },
                    ),
                },
            },
            FetchEvent::Reopened { reopened } => match reopened {
                Ok(_) => self.check_unpacked(),
                Err(message) => FetchStep::Done {
                    outcome: Err(
                        FetchError::OpenCached { target: self.target_archive(), message },
                    ),
                },
            },
            FetchEvent::Unpacked { unpacked } => match unpacked {
                Ok(_) => FetchStep::Done { outcome: Ok(self.target_dir()) },
                Err(failure) => FetchStep::Done {
                    outcome: Err(FetchError::Unpack { archive: self.target_archive(), failure }),
                },
            },
        }
    }
}

/// A directory is handed out only when its marker was found right or when
/// the package was just unpacked or repacked into it.
pub proof fn law_fetch_hands_out_unpacked(
    job: FetchJobView,
    state: FetchState,
    event: FetchEvent,
    step: FetchStep,
)
    requires
        next_step(job, state, event, step),
        step matches FetchStep::Done { outcome: Ok(_) },
    ensures
        event matches FetchEvent::Marker { valid } ==> valid,
        event matches FetchEvent::Repacked { repacked } ==> repacked is Ok,
        event matches FetchEvent::Unpacked { unpacked } ==> unpacked is Ok,
        event is Marker || event is Repacked || event is Unpacked,
{
}

/// Nothing is downloaded where the network may not be used.
pub proof fn law_frozen_fetch_downloads_nothing(
    job: FetchJobView,
    state: FetchState,
    event: FetchEvent,
    step: FetchStep,
)
    requires
        !job.network,
        next_step(job, state, event, step),
    ensures
        !(step matches FetchStep::Do { action: FetchAction::Download { .. }, .. }),
{
}

/// The packed form is unpacked only into the directory of the job inside
/// the cache, and only after the marker was not found there.
pub proof fn law_unpack_follows_marker(
    job: FetchJobView,
    state: FetchState,
    event: FetchEvent,
    step: FetchStep,
)
    requires
        next_step(job, state, event, step),
        step matches FetchStep::Do { action: FetchAction::Unpack { .. }, .. },
    ensures
        state == FetchState::CheckUnpacked,
        event == (FetchEvent::Marker { valid: false }),
        step matches FetchStep::Do { action: FetchAction::Unpack { dir, .. }, .. } && dir@
            == target_dir(job),
{
}

} // verus!
