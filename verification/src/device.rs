//! Device-facing abstractions: the card-less reader interface, the external
//! display capability, and the types their operations exchange.

use vstd::prelude::*;

use crate::error::{DeviceError, StorageError};
use crate::tlv_parser::Tlv;

verus! {

/// A contact-less reader: the operations every supported device offers.
/// Implementations live with the transport that drives a real device, so no
/// behaviour is promised here beyond the signatures.
pub trait CardLessDevice {
    fn get_sn(&self) -> Result<String, DeviceError>;

    fn poll_emv(
        &mut self,
        purchase: Option<PollEmvPurchase>,
        cancel_flag: std::sync::Arc<std::sync::atomic::AtomicBool>,
    ) -> Result<PollEmvResult, DeviceError>;

    fn ext_display(&mut self) -> Option<&dyn ExtDisplay>;

    fn storage(&mut self) -> Option<&dyn Storage>;
}

/// The optional external-display capability of a reader.
pub trait ExtDisplay {
    fn get_display_mode(&self) -> Result<ExtDisplayMode, DeviceError>;

    fn set_display_mode(&self, mode: &ExtDisplayMode) -> Result<(), DeviceError>;
}

#[derive(Debug)]
pub struct PollEmvPurchase {
    pub p_type: u8,
    pub currency_code: u16,
    pub amount: u64,
}

impl PollEmvPurchase {
    pub fn new(p_type: u8, currency_code: u16, amount: u64) -> (r: Self)
        ensures
            r.p_type == p_type,
            r.currency_code == currency_code,
            r.amount == amount,
    {
        Self { p_type, currency_code, amount }
    }
}

pub enum PollEmvResult {
    Canceled,
    Success(Tlv),
}

#[derive(Copy, Clone, PartialEq, Eq, Structural, Debug)]
pub enum ExtDisplayMode {
    NoDisplay,
    Simple,
    Full,
}

/// The optional file-store capability of a reader.  Implementations live
/// outside the driver core, so no behaviour is promised here.
pub trait Storage {
    fn dir_exist(&self, path: String) -> Result<(), StorageError>;

    fn get_dir_list(&self, path: String) -> Result<Vec<String>, StorageError>;

    fn create_dir(&self, path: String) -> Result<(), StorageError>;

    fn delete_dir(&self, path: String) -> Result<(), StorageError>;

    fn file_exist(&self, file_path: String) -> Result<(), StorageError>;

    fn get_file_list(&self, path: String) -> Result<Vec<String>, StorageError>;

    fn delete_file(&self, file_path: String) -> Result<(), StorageError>;
}

} // verus!
