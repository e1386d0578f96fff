//! What can go wrong, with the identifier or path that it went wrong on.

use vstd::prelude::*;
use vstd::string::StringExecFns;
use crate::ordered::Identifier;
use crate::platform::{token, Sel4Architecture};
use crate::text::{concat2, concat3};

verus! {

/// The errors of the library.
#[derive(Debug, Clone, PartialEq, Eq)]
pub enum Error {
    /// The platform catalog holds no platform of this name.
    NoSuchPlatform(String),
    /// The platform, named second, has no variation of the name given first.
    NoSuchVariation(String, String),
    /// The project catalog holds no project of this name.
    NoSuchProject(String),
    /// The flag was to be switched on, and none of its requirement sets
    /// holds in the setting.
    Unsatisfied(String),
    /// The text names no architecture.
    InvalidArchitecture(String),
    /// The platform, named second, does not support the architecture.
    UnsupportedArchitecture(Sel4Architecture, String),
    /// The text is no platform choice: it holds more than one colon.
    MalformedPlatformChoice(String),
    /// The text is no repository of the form `organisation/name`.
    MalformedRepository(String),
    /// The directory for a new workspace exists and holds something.
    WorkspaceNotEmpty(String),
    /// The path for a new workspace exists and is no directory.
    WorkspaceExists(String),
    /// The directory for a new build exists and holds something.
    BuildNotEmpty(String),
    /// The path for a new build exists and is no directory.
    BuildExists(String),
    /// The marker file at this path is missing or cannot be read.
    MissingMarker(String),
    /// The marker file at this path does not describe what it should.
    MalformedMarker(String),
    /// The image file at this path, from the build directory, is missing.
    ImageMissing(String),
    /// The build directory has no directory of images.
    ImagesMissing,
    /// The directory of images holds no image of a root server.
    NoRootServerImage,
    /// Neither of the two container engines is installed.
    DockerMissing,
    /// The client of the machine queue is not installed.
    NoMachineQueue,
    /// The project names no source directory and none could be inferred.
    NoSourceDirectory,
    /// None of the candidates of the machine queue ran the build.
    NoSystemRan,
    /// The pattern for the lines of a settings file was not taken.
    InvalidPattern,
    /// The machine queue has no system or pool for the platform and, where
    /// one was asked for, the variation.
    NoMatchingSystem(String, Option<String>),
    /// The flag has requirements and was to be set to the value named
    /// second, which is no truth value.
    InvalidValue(String, String),
}

impl Error {
    /// The message of the error, with the identifier or path that it is
    /// about.
    pub open spec fn message_text(self) -> Seq<char> {
        match self {
            Error::NoSuchPlatform(name) => "No such platform "@ + name@,
            Error::NoSuchVariation(name, platform) => "No such platform variation "@ + name@
                + " for platform "@ + platform@,
            Error::NoSuchProject(name) => "No such project "@ + name@,
            Error::Unsatisfied(flag) => "None of the requirement sets for the flag "@ + flag@
                + " could be satisfied"@,
            Error::InvalidValue(flag, value) => "Cannot set flag "@ + flag@
                + " with requirements to non-boolean value: "@ + value@,
            Error::InvalidArchitecture(text) => "Invalid seL4 architecture: "@ + text@,
            Error::UnsupportedArchitecture(architecture, platform) => "Architecture "@ + token(architecture)
                + " is not supported on platform "@ + platform@,
            Error::MalformedPlatformChoice(text) => "Malformed platform choice: "@ + text@,
            Error::MalformedRepository(text) => "Malformed repository: "@ + text@,
            Error::WorkspaceNotEmpty(path) => "Workspace directory "@ + path@ + " is not empty"@,
            Error::WorkspaceExists(path) => "Workspace directory path "@ + path@ + " already exists"@,
            Error::BuildNotEmpty(path) => "Build directory "@ + path@ + " is not empty"@,
            Error::BuildExists(path) => "Build directory path "@ + path@ + " already exists"@,
            Error::MissingMarker(path) => "Marker file missing: "@ + path@,
            Error::MalformedMarker(path) => "Malformed marker file: "@ + path@,
            Error::ImageMissing(path) => "Image file missing: "@ + path@,
            Error::ImagesMissing => "images directory is missing"@,
            Error::NoRootServerImage => "no rootserver image in images directory"@,
            Error::DockerMissing => "docker or podman-docker must be installed"@,
            Error::NoMachineQueue => "No mq.sh available"@,
            Error::NoSourceDirectory => "Could not infer source directory"@,
            Error::NoSystemRan => "Could not run on any available system"@,
            Error::InvalidPattern => "Invalid pattern for settings"@,
            Error::NoMatchingSystem(platform, variation) => match variation {
                Some(v) => "No matching system found for "@ + platform@ + ":"@ + v@,
                None => "No matching system found for "@ + platform@,
            },
        }
    }

    /// The message of the error.
    pub fn message(&self) -> (r: String)
        ensures
            r@ == self.message_text(),
    {
        match self {
            Error::NoSuchPlatform(name) => concat2("No such platform ", name.as_str()),
            Error::NoSuchVariation(name, platform) => {
                let mut r = concat3("No such platform variation ", name.as_str(), " for platform ");
                r.append(platform.as_str());
                r
            },
            Error::NoSuchProject(name) => concat2("No such project ", name.as_str()),
            Error::Unsatisfied(flag) => concat3(
                "None of the requirement sets for the flag ",
                flag.as_str(),
                " could be satisfied",
            ),
            Error::InvalidValue(flag, value) => {
                let mut r = concat3("Cannot set flag ", flag.as_str(), " with requirements to non-boolean value: ");
                r.append(value.as_str());
                r
            },
            Error::InvalidArchitecture(text) => concat2("Invalid seL4 architecture: ", text.as_str()),
            Error::UnsupportedArchitecture(architecture, platform) => {
                let mut r = concat3("Architecture ", architecture.as_str(), " is not supported on platform ");
                r.append(platform.as_str());
                r
            },
            Error::MalformedPlatformChoice(text) => concat2("Malformed platform choice: ", text.as_str()),
            Error::MalformedRepository(text) => concat2("Malformed repository: ", text.as_str()),
            Error::WorkspaceNotEmpty(path) => concat3("Workspace directory ", path.as_str(), " is not empty"),
            Error::WorkspaceExists(path) => concat3("Workspace directory path ", path.as_str(), " already exists"),
            Error::BuildNotEmpty(path) => concat3("Build directory ", path.as_str(), " is not empty"),
            Error::BuildExists(path) => concat3("Build directory path ", path.as_str(), " already exists"),
            Error::MissingMarker(path) => concat2("Marker file missing: ", path.as_str()),
            Error::MalformedMarker(path) => concat2("Malformed marker file: ", path.as_str()),
            Error::ImageMissing(path) => concat2("Image file missing: ", path.as_str()),
            Error::ImagesMissing => String::from_str("images directory is missing"),
            Error::NoRootServerImage => String::from_str("no rootserver image in images directory"),
            Error::DockerMissing => String::from_str("docker or podman-docker must be installed"),
            Error::NoMachineQueue => String::from_str("No mq.sh available"),
            Error::NoSourceDirectory => String::from_str("Could not infer source directory"),
            Error::NoSystemRan => String::from_str("Could not run on any available system"),
            Error::InvalidPattern => String::from_str("Invalid pattern for settings"),
            Error::NoMatchingSystem(platform, variation) => match variation {
                Some(v) => {
                    let mut r = concat3("No matching system found for ", platform.as_str(), ":");
                    r.append(v.as_str());
                    r
                },
                None => concat2("No matching system found for ", platform.as_str()),
            },
        }
    }
}

} // verus!
