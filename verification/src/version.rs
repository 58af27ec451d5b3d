//! What the linked FFmpeg libraries say of themselves.

use crate::text::{
    before, behind, decimal, law_decimal_reads_back, lemma_cut, nat_text, number,
};
use vstd::prelude::*;

verus! {

/// The versions and build facts of the linked libraries.
#[derive(Debug)]
pub struct VersionInfo {
    pub avformat: String,
    pub avcodec: String,
    pub avutil: String,
    pub license: String,
    /// The configure flags of the build.
    pub configuration: String,
}

/// A packed version number as `major.minor.micro`: one byte each, the
/// major number in the third byte.
pub open spec fn version_view(v: u32) -> Seq<char> {
    decimal(((v / 65536) % 256) as nat) + "."@ + decimal(((v / 256) % 256) as nat) + "."@ + decimal(
        (v % 256) as nat,
    )
}

/// A packed version number as text.
pub fn version_text(v: u32) -> (r: String)
    ensures
        r@ == version_view(v),
{
    let mut r = nat_text(((v / 65536) % 256) as u128);
    r.append(".");
    let part = nat_text(((v / 256) % 256) as u128);
    r.append(part.as_str());
    r.append(".");
    let part = nat_text((v % 256) as u128);
    r.append(part.as_str());
    r
}

/// Describe the linked libraries by their packed version numbers.
pub fn version_info(
    avformat: u32,
    avcodec: u32,
    avutil: u32,
    license: String,
    configuration: String,
) -> (r: VersionInfo)
    ensures
        r.avformat@ == version_view(avformat),
        r.avcodec@ == version_view(avcodec),
        r.avutil@ == version_view(avutil),
        r.license == license,
        r.configuration == configuration,
{
    VersionInfo {
        avformat: version_text(avformat),
        avcodec: version_text(avcodec),
        avutil: version_text(avutil),
        license,
        configuration,
    }
}

/// Every version text is separated by dots.
pub proof fn law_versions_have_dots(v: u32)
    ensures
        version_view(v).contains('.'),
{
    reveal_strlit(".");
    let major = decimal(((v / 65536) % 256) as nat);
    assert(version_view(v)[major.len() as int] == '.');
}

/// The three numbers of a version can be read back from its text: each fits
/// a byte, and packed again they are the low three bytes.
pub proof fn law_version_reads_back(v: u32)
    ensures
        ({
            let s = version_view(v);
            let major = number(before(s, '.'));
            let minor = number(before(behind(s, '.'), '.'));
            let micro = number(behind(behind(s, '.'), '.'));
            &&& 0 <= major < 256
            &&& 0 <= minor < 256
            &&& 0 <= micro < 256
            &&& major * 65536 + minor * 256 + micro == v % 16777216
        }),
{
    reveal_strlit(".");
    assert("."@ =~= seq!['.']);
    let a = ((v / 65536) % 256) as nat;
    let b = ((v / 256) % 256) as nat;
    let c = (v % 256) as nat;
    law_decimal_reads_back(a);
    law_decimal_reads_back(b);
    law_decimal_reads_back(c);
    assert(version_view(v) =~= decimal(a) + seq!['.'] + (decimal(b) + seq!['.'] + decimal(c)));
    lemma_cut(decimal(a), '.', decimal(b) + seq!['.'] + decimal(c));
    lemma_cut(decimal(b), '.', decimal(c));
}

} // verus!
