//! Backup verification: the running checksum of a file, the comparison of
//! a copy with its source, and the SQLite checks' verdict.  Copying and
//! reading files is the application's work.
use vstd::prelude::*;
use crate::domain::events::{fnv1a, fnv1a_from, fnv1a_update, lemma_fnv1a_from};
use crate::json::{int_text_of, nat_digits, nat_text};
use crate::text::{extend_chars, extend_str, hex_of_u64, hex_u64, lower_seq, string_from_chars};

verus! {

/// A verified copy: where it came from and went, and what was checked.
#[derive(Debug)]
pub struct BackupManifest {
    pub source: std::path::PathBuf,
    pub destination: std::path::PathBuf,
    pub size_bytes: u64,
    pub checksum: String,
    pub verified: bool,
}

/// The result of checking one copy.
#[derive(Debug, Clone)]
pub struct BackupVerification {
    pub size_bytes: u64,
    pub checksum: String,
    pub integrity_ok: bool,
}

/// The checksum of a file read so far: its size and running FNV-1a hash.
#[derive(Debug, Clone, Copy)]
pub struct Checksum {
    pub size: u64,
    pub hash: u64,
}

impl Checksum {
    /// Before any byte.
    pub fn new() -> (r: Self)
        ensures
            r.size == 0,
            r.hash == fnv1a(Seq::empty()),
    {
        Checksum { size: 0, hash: 0xcbf29ce484222325 }
    }

    /// Takes in the next chunk read from the file.
    pub fn absorb(&mut self, chunk: &[u8])
        requires
            old(self).size + chunk@.len() <= u64::MAX,
        ensures
            final(self).size == old(self).size + chunk@.len(),
            final(self).hash == fnv1a_from(old(self).hash, chunk@),
    {
        self.hash = fnv1a_update(self.hash, chunk);
        self.size = self.size + chunk.len() as u64;
    }

    /// The checksum as sixteen hex digits.
    pub fn text(&self) -> (r: String)
        ensures
            r@ == hex_u64(self.hash),
    {
        let d = hex_of_u64(self.hash);
        string_from_chars(&d)
    }
}

/// Hashing a file chunk by chunk gives the hash of its whole content,
/// however the reads split it.
pub proof fn checksum_is_independent_of_chunking(h: u64, a: Seq<u8>, b: Seq<u8>)
    ensures
        fnv1a_from(fnv1a_from(h, a), b) == fnv1a_from(h, a + b),
    decreases b.len(),
{
    if b.len() == 0 {
        assert(a + b =~= a);
    } else {
        checksum_is_independent_of_chunking(h, a, b.drop_last());
        assert((a + b).drop_last() =~= a + b.drop_last());
        assert((a + b).last() == b.last());
    }
}

/// The whole-content hash from the start state is the file's FNV-1a.
pub proof fn checksum_of_whole_file(content: Seq<u8>)
    ensures
        fnv1a_from(0xcbf29ce484222325u64, content) == fnv1a(content),
{
    lemma_fnv1a_from(content);
}

/// The mismatch message of a copy whose size or checksum differs.
pub open spec fn mismatch_text(
    source_size: u64,
    source_checksum: Seq<char>,
    copy_size: u64,
    copy_checksum: Seq<char>,
) -> Seq<char> {
    "size/checksum mismatch: source="@ + nat_text(source_size as nat) + "/"@ + source_checksum
        + ", copy="@ + nat_text(copy_size as nat) + "/"@ + copy_checksum
}

/// A copy matches its source when size and checksum agree.
pub fn compare_copy(
    source_size: u64,
    source_checksum: &str,
    copy_size: u64,
    copy_checksum: &str,
) -> (r: Result<(), String>)
    ensures
        match r {
            Ok(()) => source_size == copy_size && source_checksum@ == copy_checksum@,
            Err(m) => !(source_size == copy_size && source_checksum@ == copy_checksum@) && m@
                == mismatch_text(source_size, source_checksum@, copy_size, copy_checksum@),
        },
{
    if source_size == copy_size && crate::text::str_eq(source_checksum, copy_checksum) {
        return Ok(());
    }
    let mut m: Vec<char> = Vec::new();
    extend_str(&mut m, "size/checksum mismatch: source=");
    let a = nat_digits(source_size);
    extend_chars(&mut m, &a);
    extend_str(&mut m, "/");
    extend_str(&mut m, source_checksum);
    extend_str(&mut m, ", copy=");
    let b = nat_digits(copy_size);
    extend_chars(&mut m, &b);
    extend_str(&mut m, "/");
    extend_str(&mut m, copy_checksum);
    Err(string_from_chars(&m))
}

/// The verdict of SQLite's checks on a file: `integrity_check` must answer
/// `ok` (in any case) and `foreign_key_check` must report nothing.
pub fn sqlite_checks_verdict(integrity: &str, foreign_key_violation: bool) -> (r: Result<(), String>)
    ensures
        match r {
            Ok(()) => lower_seq(integrity@) == "ok"@ && !foreign_key_violation,
            Err(m) => if lower_seq(integrity@) != "ok"@ {
                m@ == "SQLite integrity_check returned "@ + integrity@
            } else {
                foreign_key_violation && m@ == "SQLite foreign_key_check returned violations"@
            },
        },
{
    let l = crate::text::lower_chars(&crate::text::chars_of(integrity));
    if !crate::text::chars_eq_str(&l, "ok") {
        let mut m: Vec<char> = Vec::new();
        extend_str(&mut m, "SQLite integrity_check returned ");
        extend_str(&mut m, integrity);
        return Err(string_from_chars(&m));
    }
    if foreign_key_violation {
        return Err(crate::text::owned("SQLite foreign_key_check returned violations"));
    }
    Ok(())
}

/// The verification of a copy that matched its source and passed the
/// SQLite checks.
pub fn verified_copy(size_bytes: u64, checksum: String) -> (r: BackupVerification)
    ensures
        r.size_bytes == size_bytes,
        r.checksum == checksum,
        r.integrity_ok,
{
    BackupVerification { size_bytes, checksum, integrity_ok: true }
}

/// The name of the temporary copy written next to a destination:
/// `.{name}.tmp-{id}`.
pub fn temporary_file_name(file_name: &str, id: &str) -> (r: String)
    ensures
        r@ == "."@ + file_name@ + ".tmp-"@ + id@,
{
    let mut v: Vec<char> = Vec::new();
    extend_str(&mut v, ".");
    extend_str(&mut v, file_name);
    extend_str(&mut v, ".tmp-");
    extend_str(&mut v, id);
    string_from_chars(&v)
}

} // verus!
