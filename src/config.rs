use vstd::prelude::*;
use vstd::utf8::{decode_utf8, valid_utf8};

use crate::bytes::{fits, le16, le32, utf8_text, ByteCursor};
use crate::error::Error;

verus! {

/// The raw bytes a packed language or region code stands for: two plain
/// characters, or, when bit 7 of `low` is set, three 5-bit values.
pub open spec fn region_bytes(low: u8, high: u8) -> Seq<u8> {
    if low & 0x80 != 0 {
        seq![
            high & 0x1F,
            (((high & 0xE0) >> 5u8) + ((low & 0x03) << 3u8)) as u8,
            (low & 0x7C) >> 2u8,
        ]
    } else {
        seq![low, high]
    }
}

/// The text of a packed code, when its bytes are valid UTF-8.
pub open spec fn region_text(low: u8, high: u8) -> Option<Seq<char>> {
    if valid_utf8(region_bytes(low, high)) {
        Some(decode_utf8(region_bytes(low, high)))
    } else {
        None
    }
}

/// A packed two-byte language or region code.
#[derive(Debug, Clone, Copy, PartialEq, Eq, Structural)]
pub struct Region {
    pub low: u8,
    pub high: u8,
}

impl Region {
    pub fn new(low: u8, high: u8) -> (r: Self)
        ensures
            r == (Region { low, high }),
    {
        Region { low, high }
    }

    /// The raw character bytes of the code.
    pub fn to_bytes(&self) -> (r: Vec<u8>)
        ensures
            r@ == region_bytes(self.low, self.high),
    {
        let mut chrs: Vec<u8> = Vec::new();
        if self.low & 0x80 != 0 {
            let low = self.low;
            let high = self.high;
            assert(((high & 0xE0) >> 5u8) <= 7 && ((low & 0x03) << 3u8) <= 24) by (bit_vector);
            chrs.push(high & 0x1F);
            chrs.push(((high & 0xE0) >> 5) + ((low & 0x03) << 3));
            chrs.push((low & 0x7C) >> 2);
        } else {
            chrs.push(self.low);
            chrs.push(self.high);
        }
        assert(chrs@ =~= region_bytes(self.low, self.high));
        chrs
    }

    /// The code as text; fails when its bytes are not valid UTF-8.
    pub fn to_string(&self) -> (r: Result<String, Error>)
        ensures
            r is Ok <==> region_text(self.low, self.high) is Some,
            r is Ok ==> r->Ok_0@ == region_text(self.low, self.high)->0,
            r is Err ==> r->Err_0 == Error::Decode,
    {
        match utf8_text(self.to_bytes()) {
            Some(s) => Ok(s),
            None => Err(Error::Decode),
        }
    }
}

/// How many bytes the configuration decoder consumes for a declared size.
pub open spec fn config_len(size: int) -> int {
    28 + (if size >= 32 {
        4int
    } else {
        0
    }) + (if size >= 36 {
        4int
    } else {
        0
    }) + (if size >= 48 {
        12int
    } else {
        0
    })
}

/// The error decoding a configuration at `p` fails with, or `None` when it
/// succeeds.
pub open spec fn config_error(d: Seq<u8>, p: int) -> Option<Error> {
    if !fits(d, p, 10) {
        Some(Error::UnexpectedEndOfData)
    } else if region_text(d[p + 8], d[p + 9]) is None {
        Some(Error::Decode)
    } else if !fits(d, p, 12) {
        Some(Error::UnexpectedEndOfData)
    } else if region_text(d[p + 10], d[p + 11]) is None {
        Some(Error::Decode)
    } else if !fits(d, p, config_len(le32(d, p))) {
        Some(Error::UnexpectedEndOfData)
    } else {
        None
    }
}

/// Device and locale qualifiers of a resource-type chunk.
#[derive(Debug)]
pub struct ResourceConfiguration {
    pub size: u32,
    pub mcc: u16,
    pub mnc: u16,
    pub language: String,
    pub region: String,
    pub orientation: u8,
    pub touchscreen: u8,
    pub density: u16,
    pub keyboard: u8,
    pub navigation: u8,
    pub input_flags: u8,
    pub width: u16,
    pub height: u16,
    pub sdk_version: u16,
    pub min_sdk_version: u16,
    pub screen_layout: u8,
    pub ui_mode: u8,
    pub smallest_screen: u16,
    pub screen_width_dp: u16,
    pub screen_height_dp: u16,
}

impl ResourceConfiguration {
    /// Every field is the one the descriptor at `p` of `d` holds; the fields
    /// its declared size leaves out are zero.
    pub open spec fn decoded_from(&self, d: Seq<u8>, p: int) -> bool {
        &&& self.size == le32(d, p)
        &&& self.mcc == le16(d, p + 4)
        &&& self.mnc == le16(d, p + 6)
        &&& self.language@ == region_text(d[p + 8], d[p + 9])->0
        &&& self.region@ == region_text(d[p + 10], d[p + 11])->0
        &&& self.orientation == d[p + 12]
        &&& self.touchscreen == d[p + 13]
        &&& self.density == le16(d, p + 14)
        &&& self.keyboard == d[p + 16]
        &&& self.navigation == d[p + 17]
        &&& self.input_flags == d[p + 18]
        &&& self.width == le16(d, p + 20)
        &&& self.height == le16(d, p + 22)
        &&& self.sdk_version == le16(d, p + 24)
        &&& self.min_sdk_version == le16(d, p + 26)
        &&& if self.size >= 32 {
            &&& self.screen_layout == d[p + 28]
            &&& self.ui_mode == d[p + 29]
            &&& self.smallest_screen == le16(d, p + 30)
        } else {
            self.screen_layout == 0 && self.ui_mode == 0 && self.smallest_screen == 0
        }
        &&& if self.size >= 36 {
            &&& self.screen_width_dp == le16(d, p + 32)
            &&& self.screen_height_dp == le16(d, p + 34)
        } else {
            self.screen_width_dp == 0 && self.screen_height_dp == 0
        }
    }

    /// Every field of the two configurations is the same.
    pub open spec fn same_as(&self, o: &Self) -> bool {
        &&& self.size == o.size && self.mcc == o.mcc && self.mnc == o.mnc
        &&& self.language@ == o.language@ && self.region@ == o.region@
        &&& self.orientation == o.orientation && self.touchscreen == o.touchscreen
        &&& self.density == o.density && self.keyboard == o.keyboard
        &&& self.navigation == o.navigation && self.input_flags == o.input_flags
        &&& self.width == o.width && self.height == o.height
        &&& self.sdk_version == o.sdk_version && self.min_sdk_version == o.min_sdk_version
        &&& self.screen_layout == o.screen_layout && self.ui_mode == o.ui_mode
        &&& self.smallest_screen == o.smallest_screen
        &&& self.screen_width_dp == o.screen_width_dp
        &&& self.screen_height_dp == o.screen_height_dp
    }

    /// Decodes a configuration descriptor at the cursor. On success the
    /// cursor stands after the last byte read; on failure it has not moved.
    pub fn from_cursor(cursor: &mut ByteCursor) -> (r: Result<Self, Error>)
        ensures
            final(cursor).data == old(cursor).data,
            r is Err <==> config_error(old(cursor).data@, old(cursor).pos as int) is Some,
            r is Err ==> r->Err_0 == config_error(old(cursor).data@, old(cursor).pos as int)->0
                && final(cursor).pos == old(cursor).pos,
            r is Ok ==> r->Ok_0.decoded_from(old(cursor).data@, old(cursor).pos as int)
                && final(cursor).pos == old(cursor).pos + config_len(
                le32(old(cursor).data@, old(cursor).pos as int),
            ),
    {
        let mut c = ByteCursor { data: cursor.data, pos: cursor.pos };
        let size = c.read_u32()?;
        let mcc = c.read_u16()?;
        let mnc = c.read_u16()?;

        let lang1 = c.read_u8()?;
        let lang2 = c.read_u8()?;
        let language = Region::new(lang1, lang2).to_string()?;

        let reg1 = c.read_u8()?;
        let reg2 = c.read_u8()?;
        let region = Region::new(reg1, reg2).to_string()?;

        let orientation = c.read_u8()?;
        let touchscreen = c.read_u8()?;
        let density = c.read_u16()?;
        let keyboard = c.read_u8()?;
        let navigation = c.read_u8()?;
        let input_flags = c.read_u8()?;
        c.read_u8()?;  // padding

        let width = c.read_u16()?;
        let height = c.read_u16()?;
        let sdk_version = c.read_u16()?;
        let min_sdk_version = c.read_u16()?;

        let mut screen_layout: u8 = 0;
        let mut ui_mode: u8 = 0;
        let mut smallest_screen: u16 = 0;
        let mut screen_width_dp: u16 = 0;
        let mut screen_height_dp: u16 = 0;

        if size >= 32 {
            screen_layout = c.read_u8()?;
            ui_mode = c.read_u8()?;
            smallest_screen = c.read_u16()?;
        }
        if size >= 36 {
            screen_width_dp = c.read_u16()?;
            screen_height_dp = c.read_u16()?;
        }
        if size >= 48 {
            // locale script, locale variant and secondary layout: not kept
            c.read_u32()?;
            c.read_u32()?;
            c.read_u32()?;
        }

        cursor.pos = c.pos;
        Ok(ResourceConfiguration {
            size,
            mcc,
            mnc,
            language,
            region,
            orientation,
            touchscreen,
            density,
            keyboard,
            navigation,
            input_flags,
            width,
            height,
            sdk_version,
            min_sdk_version,
            screen_layout,
            ui_mode,
            smallest_screen,
            screen_width_dp,
            screen_height_dp,
        })
    }
}

} // verus!
