//! Disk space guardrails.
//!
//! Downloads reserve their bytes against a shared account before they write.
//! A reservation is granted only where the free space covers everything
//! reserved and still leaves the configured minimum.

use crate::pipeline::errors::Error;
use vstd::prelude::*;

verus! {

pub open spec fn mib(bytes: u64) -> u64 {
    bytes / 1024 / 1024
}

/// Whether the known free space falls short. Unknown space never does.
pub open spec fn falls_short(available: Option<u64>, required: int) -> bool {
    available matches Some(a) && a < required
}

/// Check that free space covers a requirement.
///
/// `available` is what the file system reports, nothing where it cannot say.
pub fn ensure_disk_space(required_bytes: u64, available: Option<u64>) -> (r: Result<(), Error>)
    ensures
        r is Ok <==> !falls_short(available, required_bytes as int),
        r matches Err(e) ==> e == (Error::DiskSpace {
            available_mb: mib(available->0),
            required_mb: mib(required_bytes),
        }),
{
    if required_bytes == 0 {
        return Ok(());
    }
    if let Some(available_bytes) = available {
        if available_bytes < required_bytes {
            return Err(
                Error::DiskSpace {
                    available_mb: available_bytes / 1024 / 1024,
                    required_mb: required_bytes / 1024 / 1024,
                },
            );
        }
    }
    Ok(())
}

/// Bytes that one download has reserved.
#[derive(Debug)]
pub struct DownloadReservation {
    pub reserved_bytes: u64,
}

/// The account of all reserved bytes.
#[derive(Debug)]
pub struct ReservedBytes {
    pub total: u64,
}

/// The sum of outstanding reservations.
pub open spec fn outstanding(reservations: Seq<u64>) -> int
    decreases reservations.len(),
{
    if reservations.len() == 0 {
        0
    } else {
        outstanding(reservations.drop_last()) + reservations.last()
    }
}

/// What must be free so that `next` bytes can be reserved.
pub open spec fn required_for(min_free: u64, next: u64) -> u64 {
    if min_free + next > u64::MAX {
        u64::MAX
    } else {
        (min_free + next) as u64
    }
}

impl ReservedBytes {
    pub fn new() -> (r: Self)
        ensures
            r.total == 0,
    {
        ReservedBytes { total: 0 }
    }

    /// Whether a nonzero reservation is granted, given the free space.
    pub open spec fn grants(&self, min_free: u64, bytes: u64, available: Option<u64>) -> bool {
        &&& self.total + bytes <= u64::MAX
        &&& !falls_short(available, required_for(min_free, (self.total + bytes) as u64) as int)
    }

    /// Reserve bytes for a download.
    ///
    /// Reserving nothing always succeeds. Else the account must not overflow,
    /// and the free space must hold the minimum besides everything reserved.
    pub fn reserve(&mut self, min_free_bytes: u64, reserve_bytes: u64, available: Option<u64>) -> (r:
        Result<DownloadReservation, Error>)
        ensures
            r is Ok <==> reserve_bytes == 0 || old(self).grants(
                min_free_bytes,
                reserve_bytes,
                available,
            ),
            r matches Ok(granted) ==> granted.reserved_bytes == reserve_bytes && final(self).total
                == old(self).total + reserve_bytes,
            r matches Err(e) ==> *final(self) == *old(self) && e == (if old(self).total
                + reserve_bytes > u64::MAX {
                Error::DiskSpace { available_mb: 0, required_mb: mib(u64::MAX) }
            } else {
                Error::DiskSpace {
                    available_mb: mib(available->0),
                    required_mb: mib(
                        required_for(min_free_bytes, (old(self).total + reserve_bytes) as u64),
                    ),
                }
            }),
    {
        if reserve_bytes == 0 {
            return Ok(DownloadReservation { reserved_bytes: 0 });
        }
        let next: u64 = match self.total.checked_add(reserve_bytes) {
            Some(n) => n,
            None => {
                return Err(
                    Error::DiskSpace { available_mb: 0, required_mb: u64::MAX / 1024 / 1024 },
                );
            },
        };
        let required: u64 = min_free_bytes.saturating_add(next);
        if let Some(available_bytes) = available {
            if available_bytes < required {
                return Err(
                    Error::DiskSpace {
                        available_mb: available_bytes / 1024 / 1024,
                        required_mb: required / 1024 / 1024,
                    },
                );
            }
        }
        self.total = next;
        Ok(DownloadReservation { reserved_bytes: reserve_bytes })
    }

    /// Give a reservation back.
    pub fn release(&mut self, reservation: DownloadReservation)
        requires
            reservation.reserved_bytes <= old(self).total,
        ensures
            final(self).total == old(self).total - reservation.reserved_bytes,
    {
        self.total = self.total - reservation.reserved_bytes;
    }
}

/// Every outstanding reservation can be given back: it is part of the total.
pub proof fn lemma_outstanding_covers(reservations: Seq<u64>, i: int)
    requires
        0 <= i < reservations.len(),
    ensures
        reservations[i] <= outstanding(reservations),
        outstanding(reservations.remove(i)) == outstanding(reservations) - reservations[i],
    decreases reservations.len(),
{
    lemma_outstanding_nonnegative(reservations.drop_last());
    if i == reservations.len() - 1 {
        assert(reservations.remove(i) =~= reservations.drop_last());
    } else {
        lemma_outstanding_covers(reservations.drop_last(), i);
        assert(reservations.remove(i).drop_last() =~= reservations.drop_last().remove(i));
        assert(reservations.remove(i).last() == reservations.last());
    }
}

proof fn lemma_outstanding_nonnegative(reservations: Seq<u64>)
    ensures
        outstanding(reservations) >= 0,
    decreases reservations.len(),
{
    if reservations.len() > 0 {
        lemma_outstanding_nonnegative(reservations.drop_last());
    }
}

/// While the account holds exactly the outstanding reservations, a granted one
/// leaves the configured minimum free beyond all of them.
pub proof fn lemma_granted_leaves_minimum(
    account: ReservedBytes,
    reservations: Seq<u64>,
    min_free: u64,
    bytes: u64,
    available: u64,
)
    requires
        account.total == outstanding(reservations),
        account.grants(min_free, bytes, Some(available)),
        min_free + account.total + bytes <= u64::MAX,
    ensures
        outstanding(reservations.push(bytes)) + min_free <= available,
{
    assert(reservations.push(bytes).drop_last() =~= reservations);
}

/// Sizes in messages are whole mebibytes, rounded down.
pub proof fn lemma_mebibytes_round_down(bytes: u64)
    ensures
        mib(bytes) * 1_048_576 <= bytes < (mib(bytes) + 1) * 1_048_576,
{
    assert(bytes / 1024 / 1024 * 1_048_576 <= bytes < (bytes / 1024 / 1024 + 1) * 1_048_576)
        by (nonlinear_arith);
}

/// Reservations add up whatever order they are taken in.
pub proof fn lemma_reservations_add_up(a: Seq<u64>, b: Seq<u64>)
    ensures
        outstanding(a + b) == outstanding(a) + outstanding(b),
        a.len() == 1 ==> outstanding(a) == a[0],
    decreases b.len(),
{
    if b.len() > 0 {
        assert((a + b).drop_last() =~= a + b.drop_last());
        assert((a + b).last() == b.last());
        lemma_reservations_add_up(a, b.drop_last());
    } else {
        assert(a + b =~= a);
    }
    if a.len() == 1 {
        assert(outstanding(a.drop_last()) == 0);
    }
}

/// More free space or a smaller request never turns a granted reservation down,
/// and what is not known does not stand in the way.
pub proof fn lemma_space_falls_short_exactly(
    available: u64,
    more: u64,
    required: int,
    min_free: u64,
    next: u64,
)
    requires
        available <= more,
    ensures
        falls_short(Some(available), required) <==> available + 1 <= required,
        !falls_short(Some(available), required) ==> !falls_short(Some(more), required),
        !falls_short(None, required),
        required_for(min_free, next) <= min_free + next,
        required_for(min_free, next) < min_free + next ==> required_for(min_free, next) == u64::MAX,
{
}

/// A reservation is granted exactly where the free space holds the minimum, all
/// that is reserved and what is asked for, as far as a number can say; where the
/// free space is not known, it is.
pub proof fn lemma_grants_need_room_for_all(ledger: ReservedBytes, min_free: u64, bytes: u64, available: u64)
    requires
        min_free + ledger.total + bytes <= u64::MAX,
    ensures
        ledger.grants(min_free, bytes, Some(available)) <==> min_free + ledger.total + bytes
            <= available,
        ledger.grants(min_free, bytes, None),
{
}

} // verus!
