//! Naming rule of the bitcode files the build emits.
//!
//! The build drops one `.bc` file per compiled unit into the deps
//! directory, named `<package>-<16-character metadata hash>.bc`.  The rule
//! below recognises such a name and recovers the package part, so the
//! linker can tell the primitive project's own bitcode from its
//! dependencies'.

use vstd::prelude::*;

use vstd::string::StringSliceAdditionalSpecFns;
use vstd::utf8::encode_utf8;

verus! {

/// The byte suffix a dependency bitcode name carries: a dash, sixteen hash
/// bytes, and the `.bc` extension — twenty bytes, after a non-empty package
/// name.
pub open spec fn is_dep_bitcode_name(bytes: Seq<u8>) -> bool {
    &&& bytes.len() >= 21
    &&& bytes[bytes.len() - 20] == 45u8  // '-'
    &&& bytes[bytes.len() - 3] == 46u8  // '.'
    &&& bytes[bytes.len() - 2] == 98u8  // 'b'
    &&& bytes[bytes.len() - 1] == 99u8  // 'c'
}

/// The package part of a dependency bitcode name: everything before the
/// twenty-byte suffix.
pub open spec fn dep_package_name_bytes(bytes: Seq<u8>) -> Seq<u8> {
    bytes.subrange(0, bytes.len() - 20)
}

/// Recover the package name from a bitcode file name, or nothing if the
/// name does not follow the build's `<package>-<16 bytes>.bc` rule.
pub fn dep_bitcode_package_name(filename: &str) -> (r: Option<String>)
    ensures
        r is Some <==> is_dep_bitcode_name(filename.spec_bytes()),
        r matches Some(name) ==> encode_utf8(name@) == dep_package_name_bytes(
            filename.spec_bytes(),
        ),
{
    let b = filename.as_bytes();
    let n = b.len();
    if n < 21 {
        return None;
    }
    if b[n - 20] != 45u8 || b[n - 3] != 46u8 || b[n - 2] != 98u8 || b[n - 1] != 99u8 {
        return None;
    }
    proof {
        vstd::utf8::encode_utf8_valid_utf8(filename@);
        vstd::utf8::is_char_boundary_iff_not_is_continuation_byte(
            filename.spec_bytes(),
            n - 20,
        );
    }
    let pieces = filename.split_at(n - 20);
    Some(pieces.0.to_owned())
}

/// The position of the primitive package's own bitcode among the emitted
/// files: the first whose name is `<package>-<16 bytes>.bc`.
pub fn find_package_bitcode(files: &Vec<String>, package: &str) -> (r: Option<usize>)
    ensures
        match r {
            Some(i) => {
                &&& i < files@.len()
                &&& is_dep_bitcode_name(encode_utf8(files@[i as int]@))
                &&& encode_utf8(package@) == dep_package_name_bytes(
                    encode_utf8(files@[i as int]@),
                )
                &&& forall|j: int| 0 <= j < i ==> !dep_file_matches(#[trigger] files@[j], package@)
            },
            None => forall|j: int|
                0 <= j < files@.len() ==> !dep_file_matches(#[trigger] files@[j], package@),
        },
{
    let n = files.len();
    for i in 0..n
        invariant
            n == files@.len(),
            forall|j: int| 0 <= j < i ==> !dep_file_matches(#[trigger] files@[j], package@),
    {
        let parsed = dep_bitcode_package_name(files[i].as_str());
        match parsed {
            Some(name) => {
                let hit = crate::strops::str_eq(name.as_str(), package);
                proof {
                    vstd::utf8::encode_utf8_decode_utf8(name@);
                    vstd::utf8::encode_utf8_decode_utf8(package@);
                }
                if hit {
                    return Some(i);
                }
            },
            None => {},
        }
    }
    None
}

/// A file name follows the build's rule and names the given package.
pub open spec fn dep_file_matches(file: String, package: Seq<char>) -> bool {
    &&& is_dep_bitcode_name(encode_utf8(file@))
    &&& encode_utf8(package) == dep_package_name_bytes(encode_utf8(file@))
}

} // verus!
