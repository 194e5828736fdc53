//! Counters a server keeps while it runs, with wrap-around on overflow, and
//! a human-readable rendering of byte counts.
use vstd::prelude::*;
use crate::text::{dec_str, push_char, u64_to_dec};
use vstd::arithmetic::div_mod::{lemma_div_is_ordered, lemma_div_is_ordered_by_denominator};

verus! {

/// Counters for a running file server.
#[derive(Debug)]
pub struct Stats {
    pub active_connections: u64,
    pub total_requests: u64,
    pub total_bytes_sent: u64,
    pub files_downloaded: u64,
}

/// `a + b`, wrapped around the `u64` range.
pub open spec fn wrap_add(a: u64, b: u64) -> u64 {
    if a + b <= u64::MAX {
        (a + b) as u64
    } else {
        (a + b - u64::MAX - 1) as u64
    }
}

/// `a - 1`, wrapped around the `u64` range.
pub open spec fn wrap_dec(a: u64) -> u64 {
    if a > 0 {
        (a - 1) as u64
    } else {
        u64::MAX
    }
}

impl Stats {
    /// Fresh counters, all zero.
    pub fn new() -> (r: Stats)
        ensures
            r == (Stats {
                active_connections: 0u64,
                total_requests: 0u64,
                total_bytes_sent: 0u64,
                files_downloaded: 0u64,
            }),
    {
        Stats { active_connections: 0, total_requests: 0, total_bytes_sent: 0, files_downloaded: 0 }
    }

    /// Count a connection as opened.
    pub fn connection_opened(&mut self)
        ensures
            *final(self) == (Stats {
                active_connections: wrap_add(old(self).active_connections, 1),
                ..*old(self)
            }),
    {
        self.active_connections = wrapping_inc(self.active_connections);
    }

    /// Count a connection as closed.
    pub fn connection_closed(&mut self)
        ensures
            *final(self) == (Stats {
                active_connections: wrap_dec(old(self).active_connections),
                ..*old(self)
            }),
    {
        self.active_connections = wrapping_dec(self.active_connections);
    }

    /// Count one served request.
    pub fn request_served(&mut self)
        ensures
            *final(self) == (Stats {
                total_requests: wrap_add(old(self).total_requests, 1),
                ..*old(self)
            }),
    {
        self.total_requests = wrapping_inc(self.total_requests);
    }

    /// Count bytes as sent.
    pub fn bytes_sent(&mut self, bytes: u64)
        ensures
            *final(self) == (Stats {
                total_bytes_sent: wrap_add(old(self).total_bytes_sent, bytes),
                ..*old(self)
            }),
    {
        self.total_bytes_sent = wrapping_sum(self.total_bytes_sent, bytes);
    }

    /// Count one downloaded file.
    pub fn file_downloaded(&mut self)
        ensures
            *final(self) == (Stats {
                files_downloaded: wrap_add(old(self).files_downloaded, 1),
                ..*old(self)
            }),
    {
        self.files_downloaded = wrapping_inc(self.files_downloaded);
    }

    /// How many connections are open.
    pub fn get_active_connections(&self) -> (r: u64)
        ensures
            r == self.active_connections,
    {
        self.active_connections
    }

    /// How many requests were served.
    pub fn get_total_requests(&self) -> (r: u64)
        ensures
            r == self.total_requests,
    {
        self.total_requests
    }

    /// How many bytes were sent.
    pub fn get_total_bytes_sent(&self) -> (r: u64)
        ensures
            r == self.total_bytes_sent,
    {
        self.total_bytes_sent
    }

    /// How many files were downloaded.
    pub fn get_files_downloaded(&self) -> (r: u64)
        ensures
            r == self.files_downloaded,
    {
        self.files_downloaded
    }

    /// Render a byte count with its binary unit, e.g. `1.50 KB`, rounding to
    /// hundredths (half up).
    pub fn format_bytes(bytes: u64) -> (r: String)
        ensures
            r@ == spec_format_bytes(bytes),
    {
        let kb: u64 = 1024;
        let mb: u64 = 1024 * 1024;
        let gb: u64 = 1024 * 1024 * 1024;
        if bytes >= gb {
            scaled_string(bytes, gb, " GB")
        } else if bytes >= mb {
            scaled_string(bytes, mb, " MB")
        } else if bytes >= kb {
            scaled_string(bytes, kb, " KB")
        } else {
            let mut r = u64_to_dec(bytes);
            r.append(" B");
            r
        }
    }
}

fn wrapping_inc(a: u64) -> (r: u64)
    ensures
        r == wrap_add(a, 1),
{
    if a < u64::MAX {
        a + 1
    } else {
        0
    }
}

fn wrapping_dec(a: u64) -> (r: u64)
    ensures
        r == wrap_dec(a),
{
    if a > 0 {
        a - 1
    } else {
        u64::MAX
    }
}

fn wrapping_sum(a: u64, b: u64) -> (r: u64)
    ensures
        r == wrap_add(a, b),
{
    if b <= u64::MAX - a {
        a + b
    } else {
        b - (u64::MAX - a) - 1
    }
}

/// `bytes / unit` in hundredths, rounded half up.
pub open spec fn spec_hundredths(bytes: int, unit: int) -> int {
    (bytes / unit) * 100 + ((bytes % unit) * 100 + unit / 2) / unit
}

/// The count scaled by `unit` with two decimals: whole part, a dot, and a
/// two-digit fraction.
pub open spec fn spec_scaled(bytes: int, unit: int) -> Seq<char> {
    let h = spec_hundredths(bytes, unit);
    let frac = h % 100;
    dec_str(h / 100) + "."@ + (if frac < 10 {
        "0"@ + dec_str(frac)
    } else {
        dec_str(frac)
    })
}

/// The rendering `format_bytes` gives: scaled by the largest binary unit the
/// count reaches, or the raw count in bytes.
pub open spec fn spec_format_bytes(bytes: u64) -> Seq<char> {
    if bytes >= 0x40000000 {
        spec_scaled(bytes as int, 0x40000000) + " GB"@
    } else if bytes >= 0x100000 {
        spec_scaled(bytes as int, 0x100000) + " MB"@
    } else if bytes >= 0x400 {
        spec_scaled(bytes as int, 0x400) + " KB"@
    } else {
        dec_str(bytes as int) + " B"@
    }
}

fn scaled_string(bytes: u64, unit: u64, suffix: &str) -> (r: String)
    requires
        unit == 1024 || unit == 0x100000 || unit == 0x40000000,
    ensures
        r@ == spec_scaled(bytes as int, unit as int) + suffix@,
{
    let whole_units = bytes / unit;
    let rem = bytes % unit;
    proof {
        lemma_div_is_ordered(bytes as int, u64::MAX as int, unit as int);
        lemma_div_is_ordered_by_denominator(u64::MAX as int, 1024, unit as int);
        assert(whole_units <= u64::MAX as int / 1024);
        assert(rem < unit);
        lemma_div_is_ordered(rem * 100 + unit / 2, 101 * (unit as int), unit as int);
        assert(101 * (unit as int) / (unit as int) == 101) by (nonlinear_arith)
            requires
                unit >= 1024,
        ;
    }
    let h = whole_units * 100 + (rem * 100 + unit / 2) / unit;
    proof {
        assert(h == spec_hundredths(bytes as int, unit as int));
    }
    let frac = h % 100;
    let mut r = u64_to_dec(h / 100);
    push_char(&mut r, '.');
    proof {
        reveal_strlit(".");
        assert("."@ =~= seq!['.']);
    }
    if frac < 10 {
        push_char(&mut r, '0');
        let f = u64_to_dec(frac);
        r.append(f.as_str());
        proof {
            assert("0"@ =~= seq!['0']) by {
                reveal_strlit("0");
            }
            assert(r@ =~= spec_scaled(bytes as int, unit as int));
        }
    } else {
        let f = u64_to_dec(frac);
        r.append(f.as_str());
        proof {
            assert(r@ =~= spec_scaled(bytes as int, unit as int));
        }
    }
    r.append(suffix);
    r
}

} // verus!
