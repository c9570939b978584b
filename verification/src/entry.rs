//! The record type for one fstab row, and the error taxonomy of the parser.

use vstd::prelude::*;
use crate::device::{Device, DeviceModel};

verus! {

/// Type of errors
#[derive(Debug, Clone)]
pub enum ErrorType {
    /// `fstab` file does not exist at the given path
    FstabNotExist(String),
    /// The numbers in `dump` and `fsck` fields are incorrect
    NumParseError(String),
    /// Required fields(UUID, device type, etc.) do not exist
    FieldNotExist(usize),
    /// Extra fields after `fsck`
    TooManyFields(String),
}

/// The model of an error: the kind together with its payload, a text or
/// the index of the missing field.
pub enum ErrorModel {
    FstabNotExist(Seq<char>),
    NumParseError(Seq<char>),
    FieldNotExist(int),
    TooManyFields(Seq<char>),
}

impl View for ErrorType {
    type V = ErrorModel;

    open spec fn view(&self) -> ErrorModel {
        match self {
            ErrorType::FstabNotExist(s) => ErrorModel::FstabNotExist(s@),
            ErrorType::NumParseError(s) => ErrorModel::NumParseError(s@),
            ErrorType::FieldNotExist(i) => ErrorModel::FieldNotExist(*i as int),
            ErrorType::TooManyFields(s) => ErrorModel::TooManyFields(s@),
        }
    }
}

/// An error of the parser, wrapping the kind of failure.
#[derive(Debug, Clone)]
pub struct Error {
    pub reason: ErrorType,
}

impl View for Error {
    type V = ErrorModel;

    open spec fn view(&self) -> ErrorModel {
        self.reason@
    }
}

impl Error {
    /// A short fixed description of the error kind, the text that the
    /// error used to carry as its `description`.
    pub fn description(&self) -> (r: &'static str)
        ensures
            self@ is FstabNotExist ==> r@ == "can not open fstab"@,
            !(self@ is FstabNotExist) ==> r@ == "unkonwn error"@,
    {
        match &self.reason {
            ErrorType::FstabNotExist(_) => "can not open fstab",
            _ => "unkonwn error",
        }
    }
}

/// Types for storing an item of fstab
#[derive(Debug, Clone)]
pub struct Fstab {
    /// fs_spec, the block special device or remote filesystem to be mounted
    pub device: Device,
    /// fs_file, the mount point for the filesystem
    pub dir: String,
    /// fs_vfstype, the type of the filesystem
    pub device_type: String,
    /// fs_mntops, mount options
    pub options: Vec<String>,
    /// fs_freq, need to be dumped or not
    pub dump: bool,
    /// fs_passno, filesystem checks are done at boot time or not
    pub fsck: usize,
}

/// The model of one fstab row: each field as the mathematical value it
/// holds.
pub struct FstabModel {
    pub device: DeviceModel,
    pub dir: Seq<char>,
    pub device_type: Seq<char>,
    pub options: Seq<Seq<char>>,
    pub dump: bool,
    pub fsck: int,
}

impl View for Fstab {
    type V = FstabModel;

    open spec fn view(&self) -> FstabModel {
        FstabModel {
            device: self.device@,
            dir: self.dir@,
            device_type: self.device_type@,
            options: self.options.deep_view(),
            dump: self.dump,
            fsck: self.fsck as int,
        }
    }
}

impl DeepView for Fstab {
    type V = FstabModel;

    open spec fn deep_view(&self) -> FstabModel {
        self.view()
    }
}

} // verus!
