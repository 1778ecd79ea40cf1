//! File-based configuration source descriptor.

use crate::error::ConfigError;
use vstd::prelude::*;

verus! {

/// The position of the last occurrence of `c` in `s`, or -1 if there is
/// none.
pub open spec fn last_index_of(s: Seq<char>, c: char) -> int
    decreases s.len(),
{
    if s.len() == 0 {
        -1
    } else if s.last() == c {
        s.len() - 1
    } else {
        last_index_of(s.drop_last(), c)
    }
}

/// The extension of a path: the part of its file name after the final dot,
/// provided that dot is not the file name's first character.
pub open spec fn extension_of(path: Seq<char>) -> Option<Seq<char>> {
    let name = path.skip(last_index_of(path, '/') + 1);
    let d = last_index_of(name, '.');
    if d <= 0 {
        None
    } else {
        Some(name.skip(d + 1))
    }
}

/// Whether an extension names a supported file format.
pub open spec fn supported_extension(e: Seq<char>) -> bool {
    e == "yaml"@ || e == "yml"@ || e == "toml"@ || e == "json"@
}

/// Describes a file source: a path whose format is detected from the
/// extension. Reading and parsing the file is outside this library; the
/// descriptor carries what the merger needs.
pub struct FileSource {
    /// Path of the configuration file.
    pub path: String,
    /// Priority of this source.
    pub priority: i32,
}

impl FileSource {
    /// Create a new file source with the default priority of 100.
    pub fn new(path: &str) -> (r: Self)
        ensures
            r.path@ == path@,
            r.priority == 100,
    {
        FileSource { path: path.to_owned(), priority: 100 }
    }

    /// Set the priority for this source; a higher priority overrides a lower
    /// one.
    pub fn with_priority(self, priority: i32) -> (r: Self)
        ensures
            r.path@ == self.path@,
            r.priority == priority,
    {
        FileSource { priority, ..self }
    }

    /// Check that the path carries a supported extension: `.yaml`, `.yml`,
    /// `.toml`, or `.json`.
    pub fn validate_extension(&self) -> (r: Result<(), ConfigError>)
        ensures
            r is Ok <==> (extension_of(self.path@) matches Some(e) && supported_extension(e)),
            r is Err ==> (r matches Err(ConfigError::LoadError(_))),
    {
        let n = self.path.unicode_len();
        let mut slash: usize = 0;
        let mut has_slash = false;
        let mut i: usize = 0;
        while i < n
            invariant
                n == self.path@.len(),
                0 <= i <= n,
                has_slash ==> slash < i && self.path@[slash as int] == '/',
                has_slash ==> forall|j: int| slash < j < i ==> self.path@[j] != '/',
                !has_slash ==> forall|j: int| 0 <= j < i ==> self.path@[j] != '/',
            decreases n - i,
        {
            if self.path.get_char(i) == '/' {
                slash = i;
                has_slash = true;
            }
            i = i + 1;
        }
        let name_start: usize = if has_slash {
            slash + 1
        } else {
            0
        };
        proof {
            if has_slash {
                lemma_last_index_at(self.path@, '/', slash as int);
            } else {
                lemma_last_index_none(self.path@, '/');
            }
        }
        let ghost name = self.path@.skip(name_start as int);
        let mut dot: usize = 0;
        let mut has_dot = false;
        let mut k: usize = name_start;
        while k < n
            invariant
                n == self.path@.len(),
                name_start <= k <= n,
                name == self.path@.skip(name_start as int),
                has_dot ==> name_start <= dot < k && self.path@[dot as int] == '.',
                has_dot ==> forall|j: int| dot < j < k ==> self.path@[j] != '.',
                !has_dot ==> forall|j: int| name_start <= j < k ==> self.path@[j] != '.',
            decreases n - k,
        {
            if self.path.get_char(k) == '.' {
                dot = k;
                has_dot = true;
            }
            k = k + 1;
        }
        proof {
            assert(forall|j: int| 0 <= j < name.len() ==> name[j] == self.path@[name_start + j]);
            if has_dot {
                lemma_last_index_at(name, '.', dot - name_start);
            } else {
                lemma_last_index_none(name, '.');
            }
        }
        if !has_dot || dot <= name_start {
            return Err(
                ConfigError::LoadError(
                    String::from_str("Unable to determine the file format from the path"),
                ),
            );
        }
        let ext = self.path.substring_char(dot + 1, n);
        proof {
            assert(ext@ =~= name.skip(dot - name_start + 1));
        }
        if crate::values::str_eq(ext, "yaml") || crate::values::str_eq(ext, "yml")
            || crate::values::str_eq(ext, "toml") || crate::values::str_eq(ext, "json") {
            Ok(())
        } else {
            Err(
                ConfigError::LoadError(
                    String::from_str(
                        "Unsupported file extension; supported: .yaml, .yml, .toml, .json",
                    ),
                ),
            )
        }
    }

    /// A human-readable name for this source.
    pub fn name(&self) -> (r: String)
        ensures
            r@ == "file:"@ + self.path@,
    {
        let mut s = String::from_str("file:");
        s.append(self.path.as_str());
        s
    }

    /// The priority of this source.
    pub fn priority(&self) -> (r: i32)
        ensures
            r == self.priority,
    {
        self.priority
    }
}

/// A position holding `c`, with no later occurrence, is the last index of
/// `c`.
proof fn lemma_last_index_at(s: Seq<char>, c: char, i: int)
    requires
        0 <= i < s.len(),
        s[i] == c,
        forall|j: int| i < j < s.len() ==> s[j] != c,
    ensures
        last_index_of(s, c) == i,
    decreases s.len(),
{
    if i == s.len() - 1 {
    } else {
        assert(s.last() != c);
        lemma_last_index_at(s.drop_last(), c, i);
    }
}

/// If `c` occurs nowhere in `s`, its last index is -1.
proof fn lemma_last_index_none(s: Seq<char>, c: char)
    requires
        forall|j: int| 0 <= j < s.len() ==> s[j] != c,
    ensures
        last_index_of(s, c) == -1,
    decreases s.len(),
{
    if s.len() > 0 {
        lemma_last_index_none(s.drop_last(), c);
    }
}

} // verus!
