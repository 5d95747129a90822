//! The names of the files in the icon cache.
//!
//! Every cached icon is a file of the directory `pikr/icon-cache` below the
//! user's local data directory. The icon of a target is named after the
//! SHA-256 of the target's text; the icon that stands in for a missing one has
//! a fixed name. A file is first written under a temporary name beside its
//! own.

use sha2::Digest;
use vstd::prelude::*;
use crate::text::{push_decimal, to_hex, to_lossy_text};
#[allow(unused_imports)]
use crate::text::{
    decimal, hex, is_hex_digit, law_decimal_digits, law_decimal_injective, law_hex_digits,
    law_hex_injective, lossy_text,
};

verus! {

/// The SHA-256 of `data`.
pub uninterp spec fn sha256(data: Seq<u8>) -> Seq<u8>;

/// `sha2`'s `Sha256::digest`: the SHA-256 of `data`, which is 32 bytes long and
/// depends on `data` alone.
#[verifier::external_body]
fn sha256_digest(data: &[u8]) -> (digest: Vec<u8>)
    ensures
        digest@ == sha256(data@),
        digest@.len() == 32,
{
    sha2::Sha256::digest(data).to_vec()
}

/// A file of the icon cache, by its name in the cache directory.
#[derive(Debug, PartialEq, Eq)]
pub struct CacheFile {
    pub name: String,
}

impl View for CacheFile {
    type V = Seq<char>;

    open spec fn view(&self) -> Seq<char> {
        self.name@
    }
}

impl CacheFile {
    /// The same file once more.
    pub fn duplicate(&self) -> (file: CacheFile)
        ensures
            file@ == self@,
            file.name@ == self.name@,
    {
        CacheFile { name: self.name.clone() }
    }

    /// The components of the file's path below the local data directory.
    pub fn components(&self) -> (path: Vec<String>)
        ensures
            path@.map_values(|component: String| component@) == cache_directory().push(self@),
            path@.len() == 3,
            path@[0]@ == "pikr"@,
            path@[1]@ == "icon-cache"@,
            path@[2]@ == self.name@,
    {
        let mut path = cache_directory_components();
        path.push(self.name.clone());
        assert(path@.map_values(|component: String| component@) =~= cache_directory().push(self@));
        path
    }
}

/// The cache directory, as components below the local data directory.
pub open spec fn cache_directory() -> Seq<Seq<char>> {
    seq!["pikr"@, "icon-cache"@]
}

/// The components of the cache directory's path below the local data
/// directory.
pub fn cache_directory_components() -> (path: Vec<String>)
    ensures
        path@.map_values(|component: String| component@) == cache_directory(),
        path@.len() == 2,
        path@[0]@ == "pikr"@,
        path@[1]@ == "icon-cache"@,
{
    let mut path: Vec<String> = Vec::new();
    path.push("pikr".to_owned());
    path.push("icon-cache".to_owned());
    assert(path@.map_values(|component: String| component@) =~= cache_directory());
    path
}

/// The name of the cached icon of a target whose text has this digest.
pub open spec fn digest_name(digest: Seq<u8>) -> Seq<char> {
    hex(digest) + ".png"@
}

/// The bytes that stand for a target: its text in UTF-8, where each surrogate
/// of the path that is not half of a pair reads as U+FFFD.
pub open spec fn target_bytes(target: Seq<u16>) -> Seq<u8> {
    vstd::utf8::encode_utf8(lossy_text(target))
}

/// The name of the cached icon of `target`, a path in UTF-16.
pub open spec fn cache_name(target: Seq<u16>) -> Seq<char> {
    digest_name(sha256(target_bytes(target)))
}

/// The name of the icon that stands in where a target has none.
pub open spec fn fallback_name() -> Seq<char> {
    "__fallback__.png"@
}

/// The temporary name under which process `pid` writes its `seq`th file before
/// it takes the place of `name`.
pub open spec fn temp_name(name: Seq<char>, pid: u32, seq: u64) -> Seq<char> {
    name + "."@ + decimal(pid as nat) + "."@ + decimal(seq as nat) + ".tmp"@
}

/// The cached icon of a target whose text has this digest.
pub fn digest_file(digest: &[u8]) -> (file: CacheFile)
    ensures
        file@ == digest_name(digest@),
        file.name@ == hex(digest@) + ".png"@,
{
    let mut name = to_hex(digest);
    name.append(".png");
    CacheFile { name }
}

/// Derives the file that caches the icon of `target`, a path in UTF-16.
///
/// The name is the lower-hex SHA-256 of the target's text, which keeps names
/// short, safe in a file system and the same in every run.
pub fn icon_cache_path(target: &[u16]) -> (file: CacheFile)
    ensures
        file@ == cache_name(target@),
        file@.len() == 68,
        file.name@ == hex(sha256(vstd::utf8::encode_utf8(lossy_text(target@)))) + ".png"@,
{
    let text = to_lossy_text(target);
    let digest = sha256_digest(text.as_str().as_bytes());
    let file = digest_file(digest.as_slice());
    proof {
        law_cache_name_shape(digest@);
    }
    file
}

/// The file that caches the icon of programs without one.
pub fn fallback_file() -> (file: CacheFile)
    ensures
        file@ == fallback_name(),
        file.name@ == "__fallback__.png"@,
{
    CacheFile { name: "__fallback__.png".to_owned() }
}

/// The temporary file beside `file` that process `pid` writes as its `seq`th.
pub fn temp_file(file: &CacheFile, pid: u32, seq: u64) -> (temp: CacheFile)
    ensures
        temp@ == temp_name(file@, pid, seq),
        temp.name@ == file.name@ + "."@ + decimal(pid as nat) + "."@ + decimal(seq as nat)
            + ".tmp"@,
{
    let mut name = file.name.clone();
    name.append(".");
    push_decimal(&mut name, pid as u64);
    name.append(".");
    push_decimal(&mut name, seq);
    name.append(".tmp");
    CacheFile { name }
}

// ---------------------------------------------------------------------------
// Laws
// ---------------------------------------------------------------------------

/// The name of a cached icon ends in `.png`, after lower-case hexadecimal
/// digits and nothing else; that of a 32-byte digest is 68 characters long.
pub proof fn law_cache_name_shape(digest: Seq<u8>)
    ensures
        digest_name(digest).len() == 2 * digest.len() + 4,
        digest_name(digest).skip(2 * digest.len() as int) == ".png"@,
        forall|i: int|
            0 <= i < 2 * digest.len() ==> is_hex_digit(#[trigger] digest_name(digest)[i]),
{
    reveal_strlit(".png");
    law_hex_digits(digest);
    assert(digest_name(digest).skip(2 * digest.len() as int) =~= ".png"@);
    assert forall|i: int| 0 <= i < 2 * digest.len() implies is_hex_digit(
        #[trigger] digest_name(digest)[i],
    ) by {
        assert(digest_name(digest)[i] == hex(digest)[i]);
    }
}

/// A cached icon is known by its name in the cache directory, which is
/// `pikr/icon-cache`.
pub proof fn law_cache_file_path(file: CacheFile)
    ensures
        file@ == file.name@,
        cache_directory() == seq![
            seq!['p', 'i', 'k', 'r'],
            seq!['i', 'c', 'o', 'n', '-', 'c', 'a', 'c', 'h', 'e'],
        ],
{
    reveal_strlit("pikr");
    reveal_strlit("icon-cache");
    assert("pikr"@ =~= seq!['p', 'i', 'k', 'r']);
    assert("icon-cache"@ =~= seq!['i', 'c', 'o', 'n', '-', 'c', 'a', 'c', 'h', 'e']);
}

/// The name of a cached icon spells every byte of the digest, the high half of
/// each first, and then `.png`.
pub proof fn law_name_spells_the_digest(digest: Seq<u8>, i: int)
    requires
        0 <= i < digest.len(),
    ensures
        digest_name(digest)[2 * i] as int == (if digest[i] < 0xA0 {
            '0' as int + digest[i] as int / 16
        } else {
            'a' as int + digest[i] as int / 16 - 10
        }),
        digest_name(digest)[2 * i + 1] as int == (if digest[i] % 16 < 10 {
            '0' as int + digest[i] as int % 16
        } else {
            'a' as int + digest[i] as int % 16 - 10
        }),
        digest_name(digest).len() == 2 * digest.len() + 4,
        digest_name(digest).skip(2 * digest.len() as int) == seq!['.', 'p', 'n', 'g'],
{
    reveal_strlit(".png");
    law_cache_name_shape(digest);
    crate::text::law_hex_spells_each_byte(digest, i);
    assert(digest_name(digest)[2 * i] == hex(digest)[2 * i]);
    assert(digest_name(digest)[2 * i + 1] == hex(digest)[2 * i + 1]);
    assert(".png"@ =~= seq!['.', 'p', 'n', 'g']);
}

/// The icon of a target is named after the SHA-256 of the target's whole text in
/// UTF-8. Of a path in well-formed UTF-16 that is the text it spells, to the last
/// character.
pub proof fn law_named_after_the_whole_text(target: Seq<u16>, text: Seq<char>)
    ensures
        cache_name(target) == hex(sha256(vstd::utf8::encode_utf8(lossy_text(target)))) + seq![
            '.',
            'p',
            'n',
            'g',
        ],
        vstd::utf8::decode_utf8(target_bytes(target)) == lossy_text(target),
        target_bytes(crate::text::text_units(text)) == vstd::utf8::encode_utf8(text),
{
    reveal_strlit(".png");
    assert(".png"@ =~= seq!['.', 'p', 'n', 'g']);
    vstd::utf8::encode_utf8_decode_utf8(lossy_text(target));
    crate::text::law_well_formed_text_is_kept(text);
}

/// The fallback icon is the file `__fallback__.png`; a temporary file is named
/// after the file it is for, the process and the number of the write, with dots
/// between them and `.tmp` at the end.
pub proof fn law_other_names(name: Seq<char>, pid: u32, seq: u64)
    ensures
        fallback_name() == seq![
            '_', '_', 'f', 'a', 'l', 'l', 'b', 'a', 'c', 'k', '_', '_', '.', 'p', 'n', 'g',
        ],
        temp_name(name, pid, seq) == name + seq!['.'] + decimal(pid as nat) + seq!['.'] + decimal(
            seq as nat,
        ) + seq!['.', 't', 'm', 'p'],
{
    reveal_strlit("__fallback__.png");
    reveal_strlit(".");
    reveal_strlit(".tmp");
    assert("."@ =~= seq!['.']);
    assert(".tmp"@ =~= seq!['.', 't', 'm', 'p']);
}

/// Two targets share a cached icon exactly when their texts have one SHA-256.
pub proof fn law_cache_name_injective(a: Seq<u16>, b: Seq<u16>)
    ensures
        cache_name(a) == cache_name(b) <==> sha256(target_bytes(a)) == sha256(target_bytes(b)),
{
    law_digest_name_injective(sha256(target_bytes(a)), sha256(target_bytes(b)));
}

/// Different paths in well-formed UTF-16 are hashed from different bytes.
pub proof fn law_well_formed_targets_differ(a: Seq<char>, b: Seq<char>)
    ensures
        target_bytes(crate::text::text_units(a)) == target_bytes(crate::text::text_units(b)) <==> a
            == b,
{
    crate::text::law_well_formed_text_is_kept(a);
    crate::text::law_well_formed_text_is_kept(b);
    vstd::utf8::encode_utf8_decode_utf8(a);
    vstd::utf8::encode_utf8_decode_utf8(b);
}

/// Different digests give different names.
pub proof fn law_digest_name_injective(a: Seq<u8>, b: Seq<u8>)
    ensures
        digest_name(a) == digest_name(b) <==> a == b,
{
    if digest_name(a) == digest_name(b) {
        reveal_strlit(".png");
        law_hex_digits(a);
        law_hex_digits(b);
        assert(digest_name(a).len() == 2 * a.len() + 4);
        assert(digest_name(b).len() == 2 * b.len() + 4);
        assert(digest_name(a).take(2 * a.len() as int) =~= hex(a));
        assert(digest_name(b).take(2 * b.len() as int) =~= hex(b));
        law_hex_injective(a, b);
    }
}

/// No target's icon is kept under the name of the fallback icon.
pub proof fn law_fallback_name_distinct(digest: Seq<u8>)
    ensures
        digest_name(digest) != fallback_name(),
{
    reveal_strlit(".png");
    reveal_strlit("__fallback__.png");
    law_hex_digits(digest);
    if digest_name(digest) == fallback_name() {
        assert(digest_name(digest)[0] == '_');
        assert(digest_name(digest)[0] == hex(digest)[0]);
        assert(is_hex_digit(hex(digest)[0]));
    }
}

/// A temporary name tells the file, the process and the write it belongs to:
/// two writes share one only if they agree on all three.
pub proof fn law_temp_name_unique(a: Seq<char>, a_pid: u32, a_seq: u64, b: Seq<char>, b_pid: u32, b_seq: u64)
    ensures
        temp_name(a, a_pid, a_seq) == temp_name(b, b_pid, b_seq) <==> (a == b && a_pid == b_pid
            && a_seq == b_seq),
{
    if temp_name(a, a_pid, a_seq) == temp_name(b, b_pid, b_seq) {
        reveal_strlit(".");
        reveal_strlit(".tmp");
        let a_outer = a + "."@ + decimal(a_pid as nat);
        let b_outer = b + "."@ + decimal(b_pid as nat);
        let a_all = a_outer + "."@ + decimal(a_seq as nat);
        let b_all = b_outer + "."@ + decimal(b_seq as nat);
        let whole = temp_name(a, a_pid, a_seq);
        assert(a_all =~= whole.take(whole.len() - 4));
        assert(b_all =~= whole.take(whole.len() - 4));
        lemma_last_dot(a_outer, a_seq as nat, b_outer, b_seq as nat);
        lemma_last_dot(a, a_pid as nat, b, b_pid as nat);
    }
}

/// What stands before and after the last dot is determined by the whole.
proof fn lemma_last_dot(a: Seq<char>, m: nat, b: Seq<char>, n: nat)
    requires
        a + "."@ + decimal(m) == b + "."@ + decimal(n),
    ensures
        a == b,
        m == n,
{
    reveal_strlit(".");
    law_decimal_digits(m);
    law_decimal_digits(n);
    let left = a + "."@ + decimal(m);
    let right = b + "."@ + decimal(n);
    assert(left.len() == a.len() + 1 + decimal(m).len());
    assert(right.len() == b.len() + 1 + decimal(n).len());
    assert(left[a.len() as int] == '.');
    assert(right[b.len() as int] == '.');
    if a.len() < b.len() {
        assert(left[b.len() as int] == decimal(m)[b.len() - a.len() - 1]);
    }
    if b.len() < a.len() {
        assert(right[a.len() as int] == decimal(n)[a.len() - b.len() - 1]);
    }
    assert(a =~= left.take(a.len() as int));
    assert(b =~= right.take(b.len() as int));
    assert(decimal(m) =~= left.skip(a.len() as int + 1));
    assert(decimal(n) =~= right.skip(b.len() as int + 1));
    law_decimal_injective(m, n);
}

/// A temporary name is the name of no cached icon, neither of a target nor of
/// the fallback, and never the name of the file it is written for.
pub proof fn law_temp_name_is_no_icon(name: Seq<char>, pid: u32, seq: u64, digest: Seq<u8>)
    ensures
        temp_name(name, pid, seq) != digest_name(digest),
        temp_name(name, pid, seq) != fallback_name(),
        temp_name(name, pid, seq) != name,
{
    reveal_strlit(".");
    reveal_strlit(".tmp");
    reveal_strlit(".png");
    reveal_strlit("__fallback__.png");
    assert(temp_name(name, pid, seq).last() == 'p');
    assert(digest_name(digest).last() == 'g');
    assert(fallback_name().last() == 'g');
    assert(temp_name(name, pid, seq).len() > name.len());
}

} // verus!
