//! ATA: the IDENTIFY DEVICE answer and the Secure Erase command sequence.

use vstd::prelude::*;
use vstd::utf8::*;

use crate::outside::{decode_lossy, utf8_lossy};
use crate::text::{
    is_white_space, law_trimmed_text_has_no_white_space_around, trim, trimmed,
};

verus! {

// ---------------------------------------------------------------------------
// IDENTIFY DEVICE
// ---------------------------------------------------------------------------

/// The 256 words of an ATA IDENTIFY DEVICE answer.
#[derive(Debug, Clone, Copy)]
pub struct AtaIdentity {
    pub words: [u16; 256],
}

/// The bytes of the words `start` to `end`; in each word the high byte comes
/// first.
pub open spec fn field_bytes(words: Seq<u16>, start: int, end: int) -> Seq<u8> {
    Seq::new(
        (2 * (end + 1 - start)) as nat,
        |i: int|
            if i % 2 == 0 {
                (words[start + i / 2] / 256) as u8
            } else {
                (words[start + i / 2] % 256) as u8
            },
    )
}

impl AtaIdentity {
    /// The text in the words `start` to `end`, without the blanks around it.
    pub open spec fn field(&self, start: int, end: int) -> Seq<char> {
        trimmed(utf8_lossy(field_bytes(self.words@, start, end)))
    }

    /// Whether a text is what the words `start` to `end` spell, without the
    /// blanks around it, where their bytes are valid UTF-8.
    pub open spec fn reads_as(&self, start: int, end: int, text: Seq<char>) -> bool {
        let bytes = field_bytes(self.words@, start, end);
        valid_utf8(bytes) ==> text == trimmed(decode_utf8(bytes))
    }

    /// Word 82, bit 1.
    pub open spec fn has_security(&self) -> bool {
        self.words@[82] & 0x0002 != 0
    }

    /// Word 128, bit 5.
    pub open spec fn has_enhanced_erase(&self) -> bool {
        self.words@[128] & 0x0020 != 0
    }

    /// The text in the words `start_word` to `end_word`, without the blanks
    /// around it.
    pub fn extract_string(&self, start_word: usize, end_word: usize) -> (r: String)
        requires
            start_word <= end_word + 1,
            end_word < 256,
        ensures
            r@ == self.field(start_word as int, end_word as int),
            self.reads_as(start_word as int, end_word as int, r@),
    {
        let mut bytes: Vec<u8> = Vec::new();
        let mut w: usize = start_word;
        while w <= end_word
            invariant
                start_word <= w <= end_word + 1,
                end_word < 256,
                bytes@ == field_bytes(self.words@, start_word as int, w - 1),
            decreases end_word + 1 - w,
        {
            let word: u16 = self.words[w];
            bytes.push((word / 256) as u8);
            bytes.push((word % 256) as u8);
            proof {
                assert(bytes@ =~= field_bytes(self.words@, start_word as int, w as int));
            }
            w = w + 1;
        }
        let text = decode_lossy(bytes.as_slice());
        trim(text.as_str())
    }

    /// Model number: words 27 to 46.
    pub fn model(&self) -> (r: String)
        ensures
            r@ == self.field(27, 46),
            self.reads_as(27, 46, r@),
    {
        self.extract_string(27, 46)
    }

    /// Serial number: words 10 to 19.
    pub fn serial(&self) -> (r: String)
        ensures
            r@ == self.field(10, 19),
            self.reads_as(10, 19, r@),
    {
        self.extract_string(10, 19)
    }

    /// Firmware revision: words 23 to 26.
    pub fn firmware(&self) -> (r: String)
        ensures
            r@ == self.field(23, 26),
            self.reads_as(23, 26, r@),
    {
        self.extract_string(23, 26)
    }

    /// Whether the drive has the Security feature set.
    pub fn security_supported(&self) -> (r: bool)
        ensures
            r == self.has_security(),
    {
        self.words[82] & 0x0002 != 0
    }

    /// Whether the drive has Enhanced Secure Erase.
    pub fn enhanced_erase_supported(&self) -> (r: bool)
        ensures
            r == self.has_enhanced_erase(),
    {
        self.words[128] & 0x0020 != 0
    }
}

// ---------------------------------------------------------------------------
// Secure Erase
// ---------------------------------------------------------------------------

/// A command of the Secure Erase sequence.
#[derive(Debug, Clone, Copy, PartialEq, Eq, Structural)]
pub enum AtaCommand {
    /// SECURITY SET PASSWORD: sets the temporary user password.
    SetPassword,
    /// SECURITY ERASE PREPARE: mandatory in front of the erase.
    ErasePrepare,
    /// SECURITY ERASE UNIT: erases, in normal or in enhanced mode.
    EraseUnit { enhanced: bool },
}

/// The temporary user password: `TITAN_WIPE_TEMP` and a zero byte.
pub open spec fn erase_password() -> Seq<u8> {
    seq![
        0x54,
        0x49,
        0x54,
        0x41,
        0x4E,
        0x5F,
        0x57,
        0x49,
        0x50,
        0x45,
        0x5F,
        0x54,
        0x45,
        0x4D,
        0x50,
        0x00,
    ]
}

/// The four register bytes of a command that carries one sector, and the
/// sector: zeros, but for the password behind its first word.
pub open spec fn password_block(opcode: u8, feature: u8) -> Seq<u8> {
    Seq::new(
        516,
        |i: int|
            if i == 0 {
                opcode
            } else if i == 1 {
                1u8
            } else if i == 2 {
                feature
            } else if 6 <= i < 22 {
                erase_password()[i - 6]
            } else {
                0u8
            },
    )
}

impl AtaCommand {
    /// The ATA operation code.
    pub open spec fn opcode(self) -> u8 {
        match self {
            AtaCommand::SetPassword => 0xF1,
            AtaCommand::ErasePrepare => 0xF3,
            AtaCommand::EraseUnit { .. } => 0xF4,
        }
    }

    /// The bytes handed to the kernel for this command.
    pub open spec fn block(self) -> Seq<u8> {
        match self {
            AtaCommand::SetPassword => password_block(0xF1, 0),
            AtaCommand::ErasePrepare => seq![0xF3, 0, 0, 0],
            AtaCommand::EraseUnit { enhanced } => password_block(
                0xF4,
                if enhanced {
                    0x02
                } else {
                    0x00
                },
            ),
        }
    }

    /// What a failure of this command is reported as, up to the system's own
    /// words.
    pub open spec fn failure_text(self) -> Seq<char> {
        match self {
            AtaCommand::SetPassword => "ATA SECURITY SET PASSWORD failed: "@,
            AtaCommand::ErasePrepare => "ATA SECURITY ERASE PREPARE failed: "@,
            AtaCommand::EraseUnit { .. } => "ATA SECURITY ERASE UNIT failed: "@,
        }
    }

    /// The bytes handed to the kernel for this command.
    pub fn buffer(self) -> (r: Vec<u8>)
        ensures
            r@ == self.block(),
    {
        match self {
            AtaCommand::SetPassword => password_buffer(0xF1, 0),
            AtaCommand::ErasePrepare => vec![0xF3, 0, 0, 0],
            AtaCommand::EraseUnit { enhanced } => password_buffer(
                0xF4,
                if enhanced {
                    0x02
                } else {
                    0x00
                },
            ),
        }
    }

    /// What a failure of this command is reported as, up to the system's own
    /// words.
    pub fn failure_prefix(self) -> (r: &'static str)
        ensures
            r@ == self.failure_text(),
    {
        match self {
            AtaCommand::SetPassword => "ATA SECURITY SET PASSWORD failed: ",
            AtaCommand::ErasePrepare => "ATA SECURITY ERASE PREPARE failed: ",
            AtaCommand::EraseUnit { .. } => "ATA SECURITY ERASE UNIT failed: ",
        }
    }
}

fn password_buffer(opcode: u8, feature: u8) -> (r: Vec<u8>)
    ensures
        r@ == password_block(opcode, feature),
{
    let password: [u8; 16] = [
        0x54, 0x49, 0x54, 0x41, 0x4E, 0x5F, 0x57, 0x49, 0x50, 0x45, 0x5F, 0x54, 0x45, 0x4D, 0x50, 0x00,
    ];
    proof {
        assert(password@ =~= erase_password());
    }
    let mut out: Vec<u8> = Vec::new();
    out.push(opcode);
    out.push(1);
    out.push(feature);
    while out.len() < 516
        invariant
            3 <= out@.len() <= 516,
            password@ == erase_password(),
            out@ == password_block(opcode, feature).take(out@.len() as int),
        decreases 516 - out@.len(),
    {
        let i: usize = out.len();
        if 6 <= i && i < 22 {
            out.push(password[i - 6]);
        } else {
            out.push(0);
        }
    }
    out
}

/// The commands of one Secure Erase, in the order in which they are issued.
pub open spec fn secure_erase_commands(enhanced: bool) -> Seq<AtaCommand> {
    seq![AtaCommand::SetPassword, AtaCommand::ErasePrepare, AtaCommand::EraseUnit { enhanced }]
}

/// The commands of one Secure Erase, in the order in which they are issued.
pub fn ata_secure_erase(enhanced: bool) -> (r: Vec<AtaCommand>)
    ensures
        r@ == secure_erase_commands(enhanced),
{
    vec![AtaCommand::SetPassword, AtaCommand::ErasePrepare, AtaCommand::EraseUnit { enhanced }]
}

/// The erase command presents the very password that the first command of the
/// sequence has set: the two sectors are the same, byte for byte.
pub proof fn law_erase_presents_the_password_that_was_set(enhanced: bool)
    ensures
        ({
            let commands = secure_erase_commands(enhanced);
            &&& commands[0].block().skip(4) == commands[2].block().skip(4)
            &&& commands[0].block().subrange(6, 22) == erase_password()
        }),
{
    let commands = secure_erase_commands(enhanced);
    assert(commands[0].block().skip(4) =~= commands[2].block().skip(4));
    assert(commands[0].block().subrange(6, 22) =~= erase_password());
}

/// Every command starts with its operation code, and the sequence is `0xF1`,
/// `0xF3`, `0xF4`.
pub proof fn law_erase_sequence_opcodes(enhanced: bool)
    ensures
        secure_erase_commands(enhanced).map_values(|c: AtaCommand| c.block()[0]) == seq![
            0xF1u8,
            0xF3u8,
            0xF4u8,
        ],
        forall|c: AtaCommand| #[trigger] c.block()[0] == c.opcode(),
{
    assert(secure_erase_commands(enhanced).map_values(|c: AtaCommand| c.block()[0]) =~= seq![
        0xF1u8,
        0xF3u8,
        0xF4u8,
    ]);
}

/// A field holds its words one behind the other, each with its high byte first.
pub proof fn law_words_are_high_byte_first(words: Seq<u16>, start: int, end: int, word: int)
    requires
        0 <= start <= word <= end < words.len(),
    ensures
        field_bytes(words, start, end).len() == 2 * (end + 1 - start),
        words[word] == 256 * field_bytes(words, start, end)[2 * (word - start)] + field_bytes(
            words,
            start,
            end,
        )[2 * (word - start) + 1],
{
    let w = words[word];
    let j = word - start;
    assert((2 * j) / 2 == j && (2 * j) % 2 == 0);
    assert((2 * j + 1) / 2 == j && (2 * j + 1) % 2 == 1);
    assert(w / 256 <= 255 && w % 256 <= 255);
}

/// A field is the text in its words without the blanks around it, in front of
/// it as well as behind it: what the words spell where they are valid UTF-8.
pub proof fn law_field_is_the_text_without_blanks(
    identity: AtaIdentity,
    start: int,
    end: int,
    text: Seq<char>,
)
    ensures
        identity.field(start, end) == trimmed(
            utf8_lossy(field_bytes(identity.words@, start, end)),
        ),
        identity.field(start, end).len() > 0 ==> !is_white_space(identity.field(start, end)[0])
            && !is_white_space(identity.field(start, end).last()),
        valid_utf8(field_bytes(identity.words@, start, end)) ==> (identity.reads_as(
            start,
            end,
            text,
        ) <==> text == trimmed(decode_utf8(field_bytes(identity.words@, start, end)))),
{
    law_trimmed_text_has_no_white_space_around(
        utf8_lossy(field_bytes(identity.words@, start, end)),
    );
}

} // verus!
