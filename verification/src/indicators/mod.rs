//! The moving averages that strategies choose from, by tag and by name.

pub mod adler32;

use vstd::prelude::*;

verus! {

/// The tags of the moving averages to choose from. The list is fixed: a gene
/// that selects a moving average is an index into it.
pub const MA_CHOICES: [u32; 7] = [
    adler32::ALMA,
    adler32::DEMA,
    adler32::EMA,
    adler32::EMA2,
    adler32::KAMA,
    adler32::SMA,
    adler32::SMMA,
];

/// Whether `tag` is the tag of a moving average.
pub open spec fn is_ma(tag: u32) -> bool {
    ||| tag == adler32::ALMA
    ||| tag == adler32::DEMA
    ||| tag == adler32::EMA
    ||| tag == adler32::EMA2
    ||| tag == adler32::KAMA
    ||| tag == adler32::SMA
    ||| tag == adler32::SMMA
}

/// Whether `tag` is the tag of a moving average.
pub fn is_ma_tag(tag: u32) -> (b: bool)
    ensures
        b == is_ma(tag),
{
    tag == adler32::ALMA || tag == adler32::DEMA || tag == adler32::EMA || tag == adler32::EMA2
        || tag == adler32::KAMA || tag == adler32::SMA || tag == adler32::SMMA
}

/// The name of the moving average with the given tag, and the empty string
/// for any other number.
pub open spec fn ma_name(tag: u32) -> Seq<char> {
    if tag == adler32::ALMA {
        "alma"@
    } else if tag == adler32::DEMA {
        "dema"@
    } else if tag == adler32::EMA {
        "ema"@
    } else if tag == adler32::EMA2 {
        "ema2"@
    } else if tag == adler32::KAMA {
        "kama"@
    } else if tag == adler32::SMA {
        "sma"@
    } else if tag == adler32::SMMA {
        "smma"@
    } else {
        Seq::empty()
    }
}

/// The choices are the seven tags, and no tag occurs twice.
pub proof fn lemma_ma_choices()
    ensures
        forall|tag: u32| is_ma(tag) <==> MA_CHOICES@.contains(tag),
        MA_CHOICES@.no_duplicates(),
{
    assert(MA_CHOICES@[0] == adler32::ALMA);
    assert(MA_CHOICES@[1] == adler32::DEMA);
    assert(MA_CHOICES@[2] == adler32::EMA);
    assert(MA_CHOICES@[3] == adler32::EMA2);
    assert(MA_CHOICES@[4] == adler32::KAMA);
    assert(MA_CHOICES@[5] == adler32::SMA);
    assert(MA_CHOICES@[6] == adler32::SMMA);
}

/// Each tag is the Adler-32 checksum of its name.
pub proof fn lemma_tags_are_checksums(tag: u32)
    requires
        is_ma(tag),
    ensures
        tag == adler32::checksum(adler32::ascii(ma_name(tag))),
{
    if tag == adler32::ALMA {
        reveal_strlit("alma");
        assert(adler32::ascii("alma"@) =~= seq![97u8, 108u8, 109u8, 97u8]);
        adler32::lemma_checksum_of_four(97, 108, 109, 97);
    } else if tag == adler32::DEMA {
        reveal_strlit("dema");
        assert(adler32::ascii("dema"@) =~= seq![100u8, 101u8, 109u8, 97u8]);
        adler32::lemma_checksum_of_four(100, 101, 109, 97);
    } else if tag == adler32::EMA {
        reveal_strlit("ema");
        assert(adler32::ascii("ema"@) =~= seq![101u8, 109u8, 97u8]);
        adler32::lemma_checksum_of_three(101, 109, 97);
    } else if tag == adler32::EMA2 {
        reveal_strlit("ema2");
        assert(adler32::ascii("ema2"@) =~= seq![101u8, 109u8, 97u8, 50u8]);
        adler32::lemma_checksum_of_four(101, 109, 97, 50);
    } else if tag == adler32::KAMA {
        reveal_strlit("kama");
        assert(adler32::ascii("kama"@) =~= seq![107u8, 97u8, 109u8, 97u8]);
        adler32::lemma_checksum_of_four(107, 97, 109, 97);
    } else if tag == adler32::SMA {
        reveal_strlit("sma");
        assert(adler32::ascii("sma"@) =~= seq![115u8, 109u8, 97u8]);
        adler32::lemma_checksum_of_three(115, 109, 97);
    } else {
        reveal_strlit("smma");
        assert(adler32::ascii("smma"@) =~= seq![115u8, 109u8, 109u8, 97u8]);
        adler32::lemma_checksum_of_four(115, 109, 109, 97);
    }
}

} // verus!
