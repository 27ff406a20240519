//! The events that a running `croc` reports on its output.
use vstd::prelude::*;

use crate::croc::relay::{Relay, RelayView};

verus! {

/// A quantity as `croc` prints it: the number as written, and the factor its
/// unit stands for (`1` for bytes, `1024` for `KB`, and so on up to `TB`).
/// Turning the number into a value is left to the caller, which reads it as
/// a decimal fraction.
#[derive(Debug, Clone, PartialEq, Eq)]
pub struct Measure {
    /// The number, with surrounding white space removed.
    pub number: String,
    /// The factor of the unit that followed the number.
    pub scale: u64,
}

/// A measure as the contracts see it.
#[verifier::ext_equal]
pub struct MeasureView {
    pub number: Seq<char>,
    pub scale: u64,
}

impl View for Measure {
    type V = MeasureView;

    open spec fn view(&self) -> MeasureView {
        MeasureView { number: self.number@, scale: self.scale }
    }
}

/// The view of an optional measure.
pub open spec fn measure_view(m: Option<Measure>) -> Option<MeasureView> {
    match m {
        Some(m) => Some(m@),
        None => None,
    }
}

/// Represents progress of an ongoing operation.
#[derive(Debug, Clone, PartialEq, Eq)]
pub struct Progress {
    /// The name of the file being processed.
    pub file_name: String,
    /// The current progress percentage (0-100).
    pub percentage: u8,
    /// The number of bytes transferred so far, if given.
    pub bytes_sent: Option<Measure>,
    /// The total number of bytes to transfer, if given.
    pub bytes_total: Option<Measure>,
    /// The current transfer speed per second, if given.
    pub speed: Option<Measure>,
}

/// Progress as the contracts see it.
#[verifier::ext_equal]
pub struct ProgressView {
    pub file_name: Seq<char>,
    pub percentage: u8,
    pub bytes_sent: Option<MeasureView>,
    pub bytes_total: Option<MeasureView>,
    pub speed: Option<MeasureView>,
}

impl View for Progress {
    type V = ProgressView;

    open spec fn view(&self) -> ProgressView {
        ProgressView {
            file_name: self.file_name@,
            percentage: self.percentage,
            bytes_sent: measure_view(self.bytes_sent),
            bytes_total: measure_view(self.bytes_total),
            speed: measure_view(self.speed),
        }
    }
}

/// Represents information about a file being transferred.
#[derive(Debug, Clone, PartialEq, Eq)]
pub struct FileInfo {
    /// The name of the file.
    pub name: String,
    /// The size of the file.
    pub size: Measure,
}

/// File information as the contracts see it.
#[verifier::ext_equal]
pub struct FileInfoView {
    pub name: Seq<char>,
    pub size: MeasureView,
}

impl View for FileInfo {
    type V = FileInfoView;

    open spec fn view(&self) -> FileInfoView {
        FileInfoView { name: self.name@, size: self.size@ }
    }
}

/// A collection representing an event that happened in the running `croc` application.
#[derive(Debug, Clone, PartialEq, Eq)]
pub enum CrocEvent {
    /// A hashing operation is in progress.
    Hashing(Progress),
    /// Information about a file being sent.
    SendingInfo(FileInfo),
    /// Information about a file being received.
    ReceivingInfo(FileInfo),
    /// The connection code has been generated.
    CodeGenerated(String),
    /// The transfer is sending data to the specified relay/IP.
    SendingTo(Relay),
    /// The transfer is receiving data from the specified relay/IP.
    ReceivingFrom(Relay),
    /// A file is currently being sent.
    Sending(Progress),
    /// A file is currently being received.
    Receiving(Progress),
    /// An unknown line for the parser has been received.
    Unknown(String),
    /// The process has reached EOF.
    EOF,
}

/// An event as the contracts see it.
pub enum EventView {
    Hashing(ProgressView),
    SendingInfo(FileInfoView),
    ReceivingInfo(FileInfoView),
    CodeGenerated(Seq<char>),
    SendingTo(RelayView),
    ReceivingFrom(RelayView),
    Sending(ProgressView),
    Receiving(ProgressView),
    Unknown(Seq<char>),
    EOF,
}

impl View for CrocEvent {
    type V = EventView;

    open spec fn view(&self) -> EventView {
        match self {
            CrocEvent::Hashing(p) => EventView::Hashing(p@),
            CrocEvent::SendingInfo(i) => EventView::SendingInfo(i@),
            CrocEvent::ReceivingInfo(i) => EventView::ReceivingInfo(i@),
            CrocEvent::CodeGenerated(c) => EventView::CodeGenerated(c@),
            CrocEvent::SendingTo(r) => EventView::SendingTo(r@),
            CrocEvent::ReceivingFrom(r) => EventView::ReceivingFrom(r@),
            CrocEvent::Sending(p) => EventView::Sending(p@),
            CrocEvent::Receiving(p) => EventView::Receiving(p@),
            CrocEvent::Unknown(l) => EventView::Unknown(l@),
            CrocEvent::EOF => EventView::EOF,
        }
    }
}

} // verus!
