//! Global configuration: authority, service fee, default windows and the
//! sequential giveaway id.
use vstd::prelude::*;
use crate::bytes::Pubkey;
use crate::constants::{
    MAX_ACTIVE_DURATION_SECS, MAX_SERVICE_FEE_BPS, MAX_UPLOAD_DURATION_SECS,
    MIN_ACTIVE_DURATION_SECS, MIN_UPLOAD_DURATION_SECS,
};

verus! {

/// Global system configuration (one per deployment).
#[derive(Clone, Copy)]
pub struct Config {
    pub authority: Pubkey,
    pub service_fee_bps: u16,
    pub default_active_duration_secs: u32,
    pub default_upload_duration_secs: u32,
    pub created_at_unix: i64,
    pub last_updated_unix: i64,
    pub next_giveaway_id: u64,
    pub reserved: [u8; 64],
}

/// Both default durations are within their protocol bounds.
pub open spec fn spec_valid_durations(active_duration_secs: u32, upload_duration_secs: u32) -> bool {
    &&& MIN_ACTIVE_DURATION_SECS <= active_duration_secs <= MAX_ACTIVE_DURATION_SECS
    &&& MIN_UPLOAD_DURATION_SECS <= upload_duration_secs <= MAX_UPLOAD_DURATION_SECS
}

impl Config {
    /// Serialized size of the account, discriminator included.
    pub const SIZE: usize = 8 + 32 + 2 + 4 + 4 + 8 + 8 + 8 + 64;

    /// Sets up the configuration; giveaway ids start at 1.
    pub fn initialize(
        &mut self,
        authority: Pubkey,
        service_fee_bps: u16,
        default_active_duration_secs: u32,
        default_upload_duration_secs: u32,
        current_time: i64,
    )
        ensures
            final(self).reserved@ == Seq::new(64, |i: int| 0u8),
            *final(self) == (Config {
                authority,
                service_fee_bps,
                default_active_duration_secs,
                default_upload_duration_secs,
                created_at_unix: current_time,
                last_updated_unix: current_time,
                next_giveaway_id: 1,
                reserved: final(self).reserved,
            }),
    {
        self.authority = authority;
        self.service_fee_bps = service_fee_bps;
        self.default_active_duration_secs = default_active_duration_secs;
        self.default_upload_duration_secs = default_upload_duration_secs;
        self.created_at_unix = current_time;
        self.last_updated_unix = current_time;
        self.next_giveaway_id = 1;
        self.reserved = [0u8; 64];
        assert(self.reserved@ =~= Seq::new(64, |i: int| 0u8));
    }

    /// Sets the service fee rate.
    pub fn update_service_fee(&mut self, new_service_fee_bps: u16, current_time: i64)
        ensures
            *final(self) == (Config {
                service_fee_bps: new_service_fee_bps,
                last_updated_unix: current_time,
                ..*old(self)
            }),
    {
        self.service_fee_bps = new_service_fee_bps;
        self.last_updated_unix = current_time;
    }

    /// Sets whichever default durations are given.
    pub fn update_defaults(
        &mut self,
        default_active_duration_secs: Option<u32>,
        default_upload_duration_secs: Option<u32>,
        current_time: i64,
    )
        ensures
            *final(self) == (Config {
                default_active_duration_secs: match default_active_duration_secs {
                    Some(d) => d,
                    None => old(self).default_active_duration_secs,
                },
                default_upload_duration_secs: match default_upload_duration_secs {
                    Some(d) => d,
                    None => old(self).default_upload_duration_secs,
                },
                last_updated_unix: current_time,
                ..*old(self)
            }),
    {
        if let Some(active_duration) = default_active_duration_secs {
            self.default_active_duration_secs = active_duration;
        }
        if let Some(upload_duration) = default_upload_duration_secs {
            self.default_upload_duration_secs = upload_duration;
        }
        self.last_updated_unix = current_time;
    }

    /// Whether the service fee is at most `MAX_SERVICE_FEE_BPS`.
    pub fn validate_service_fee(service_fee_bps: u16) -> (valid: bool)
        ensures
            valid == (service_fee_bps <= MAX_SERVICE_FEE_BPS),
    {
        service_fee_bps <= MAX_SERVICE_FEE_BPS
    }

    /// Whether both durations are within their protocol bounds.
    pub fn validate_durations(active_duration_secs: u32, upload_duration_secs: u32) -> (valid: bool)
        ensures
            valid == spec_valid_durations(active_duration_secs, upload_duration_secs),
    {
        MIN_ACTIVE_DURATION_SECS <= active_duration_secs && active_duration_secs
            <= MAX_ACTIVE_DURATION_SECS && MIN_UPLOAD_DURATION_SECS <= upload_duration_secs
            && upload_duration_secs <= MAX_UPLOAD_DURATION_SECS
    }
}

} // verus!
