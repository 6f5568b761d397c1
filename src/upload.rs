//! What a program upload carries: its binaries, its descriptive texts, the
//! icon, the slot and what the Brain does afterwards.

use vstd::prelude::*;
use vstd::string::{StringExecFns, StringSliceAdditionalSpecFns};

verus! {

/// What the Brain does once a program is uploaded.
#[derive(Debug, Clone, Copy, PartialEq, Eq, Structural)]
pub enum AfterUpload {
    DoNothing,
    Run,
    ShowScreen,
}

impl AfterUpload {
    /// The file exit action code the device protocol uses: do nothing (0),
    /// run the program (1) or show its run screen (3).
    pub open spec fn spec_exit_action(self) -> u8 {
        match self {
            AfterUpload::DoNothing => 0,
            AfterUpload::Run => 1,
            AfterUpload::ShowScreen => 3,
        }
    }

    pub fn exit_action(&self) -> (r: u8)
        ensures
            r == self.spec_exit_action(),
    {
        match self {
            AfterUpload::DoNothing => 0,
            AfterUpload::Run => 1,
            AfterUpload::ShowScreen => 3,
        }
    }
}

impl Default for AfterUpload {
    fn default() -> (r: AfterUpload)
        ensures
            r == AfterUpload::DoNothing,
    {
        AfterUpload::DoNothing
    }
}

/// The icons the Brain can show beside a program.
#[derive(Debug, Clone, Copy, PartialEq, Eq, Structural)]
pub enum ProgramIcon {
    VexCodingStudio,
    CoolX,
    /// The icon shown for a missing icon name.
    QuestionMark,
    Pizza,
    Clawbot,
    Robot,
    PowerButton,
    Planets,
    Alien,
    AlienInUfo,
    CupInField,
    CupAndBall,
    Matlab,
    Pros,
    RobotMesh,
    RobotMeshCpp,
    RobotMeshBlockly,
    RobotMeshFlowol,
    RobotMeshJS,
    RobotMeshPy,
    /// This icon has several numbers and file names.
    CodeFile,
    VexcodeBrackets,
    VexcodeBlocks,
    VexcodePython,
    VexcodeCpp,
}

impl ProgramIcon {
    /// The icon's number on the Brain.
    pub open spec fn spec_code(self) -> u16 {
        match self {
            ProgramIcon::VexCodingStudio => 0,
            ProgramIcon::CoolX => 1,
            ProgramIcon::QuestionMark => 2,
            ProgramIcon::Pizza => 3,
            ProgramIcon::Clawbot => 10,
            ProgramIcon::Robot => 11,
            ProgramIcon::PowerButton => 12,
            ProgramIcon::Planets => 13,
            ProgramIcon::Alien => 27,
            ProgramIcon::AlienInUfo => 29,
            ProgramIcon::CupInField => 50,
            ProgramIcon::CupAndBall => 51,
            ProgramIcon::Matlab => 901,
            ProgramIcon::Pros => 902,
            ProgramIcon::RobotMesh => 903,
            ProgramIcon::RobotMeshCpp => 911,
            ProgramIcon::RobotMeshBlockly => 912,
            ProgramIcon::RobotMeshFlowol => 913,
            ProgramIcon::RobotMeshJS => 914,
            ProgramIcon::RobotMeshPy => 915,
            ProgramIcon::CodeFile => 920,
            ProgramIcon::VexcodeBrackets => 921,
            ProgramIcon::VexcodeBlocks => 922,
            ProgramIcon::VexcodePython => 925,
            ProgramIcon::VexcodeCpp => 926,
        }
    }

    pub fn code(&self) -> (r: u16)
        ensures
            r == self.spec_code(),
            r < 1000,
    {
        match self {
            ProgramIcon::VexCodingStudio => 0,
            ProgramIcon::CoolX => 1,
            ProgramIcon::QuestionMark => 2,
            ProgramIcon::Pizza => 3,
            ProgramIcon::Clawbot => 10,
            ProgramIcon::Robot => 11,
            ProgramIcon::PowerButton => 12,
            ProgramIcon::Planets => 13,
            ProgramIcon::Alien => 27,
            ProgramIcon::AlienInUfo => 29,
            ProgramIcon::CupInField => 50,
            ProgramIcon::CupAndBall => 51,
            ProgramIcon::Matlab => 901,
            ProgramIcon::Pros => 902,
            ProgramIcon::RobotMesh => 903,
            ProgramIcon::RobotMeshCpp => 911,
            ProgramIcon::RobotMeshBlockly => 912,
            ProgramIcon::RobotMeshFlowol => 913,
            ProgramIcon::RobotMeshJS => 914,
            ProgramIcon::RobotMeshPy => 915,
            ProgramIcon::CodeFile => 920,
            ProgramIcon::VexcodeBrackets => 921,
            ProgramIcon::VexcodeBlocks => 922,
            ProgramIcon::VexcodePython => 925,
            ProgramIcon::VexcodeCpp => 926,
        }
    }

    /// The icon's file name on the Brain: `USER`, the number in three
    /// digits, then `x.bmp`.
    pub fn file_name(&self) -> (r: String)
        ensures
            r@ == icon_file_name(self.spec_code()),
    {
        let code = self.code();
        let mut s = String::from_str("USER");
        s.append(digit_str((code / 100) as u8));
        s.append(digit_str(((code / 10) % 10) as u8));
        s.append(digit_str((code % 10) as u8));
        s.append("x.bmp");
        proof {
            reveal_strlit("USER");
            reveal_strlit("x.bmp");
        }
        assert(s@ =~= icon_file_name(code));
        s
    }
}

impl Default for ProgramIcon {
    fn default() -> (r: ProgramIcon)
        ensures
            r == ProgramIcon::QuestionMark,
    {
        ProgramIcon::QuestionMark
    }
}

/// The decimal digit character of `d`.
pub open spec fn spec_digit_char(d: u8) -> char {
    (48u8 + d) as char
}

fn digit_str(d: u8) -> (r: &'static str)
    requires
        d < 10,
    ensures
        r@ == seq![spec_digit_char(d)],
{
    proof {
        reveal_strlit("0");
        reveal_strlit("1");
        reveal_strlit("2");
        reveal_strlit("3");
        reveal_strlit("4");
        reveal_strlit("5");
        reveal_strlit("6");
        reveal_strlit("7");
        reveal_strlit("8");
        reveal_strlit("9");
    }
    match d {
        0 => "0",
        1 => "1",
        2 => "2",
        3 => "3",
        4 => "4",
        5 => "5",
        6 => "6",
        7 => "7",
        8 => "8",
        _ => "9",
    }
}

/// The file name of icon number `code` (below 1000).
pub open spec fn icon_file_name(code: u16) -> Seq<char> {
    seq!['U', 'S', 'E', 'R'] + seq![
        spec_digit_char((code / 100) as u8),
        spec_digit_char(((code / 10) % 10) as u8),
        spec_digit_char((code % 10) as u8),
    ] + seq!['x', '.', 'b', 'm', 'p']
}

/// The slot number a program's ini file on the Brain records for user slot
/// `slot`. Users, clients and the upload command count slots from 1; the ini
/// file counts from 0. Slot 0 does not exist, and is refused before any
/// transfer starts.
pub fn device_slot(slot: u8) -> (r: Option<u8>)
    ensures
        slot == 0 ==> r is None,
        slot > 0 ==> r == Some((slot - 1) as u8),
{
    if slot == 0 {
        None
    } else {
        Some(slot - 1)
    }
}

/// The binaries of a program: one combined image, or a hot part (the user
/// code), a cold part (the linked library), or both.
#[derive(Debug, Clone, PartialEq, Eq)]
pub enum ProgramData {
    Monolith(Vec<u8>),
    HotCold { hot: Option<Vec<u8>>, cold: Option<Vec<u8>> },
}

/// Which binary files an upload names.
#[derive(Debug, Clone, Copy, PartialEq, Eq, Structural)]
pub enum Layout {
    Monolith,
    HotOnly,
    ColdOnly,
    HotAndCold,
}

/// The layout of an upload from which files it names: a monolith alone, or
/// a hot file, a cold file or both. Any other combination is refused.
pub fn choose_layout(monolith: bool, hot: bool, cold: bool) -> (r: Option<Layout>)
    ensures
        r == (if monolith && !hot && !cold {
            Some(Layout::Monolith)
        } else if !monolith && hot && !cold {
            Some(Layout::HotOnly)
        } else if !monolith && !hot && cold {
            Some(Layout::ColdOnly)
        } else if !monolith && hot && cold {
            Some(Layout::HotAndCold)
        } else {
            None
        }),
{
    if monolith {
        if !hot && !cold {
            Some(Layout::Monolith)
        } else {
            None
        }
    } else if hot && cold {
        Some(Layout::HotAndCold)
    } else if hot {
        Some(Layout::HotOnly)
    } else if cold {
        Some(Layout::ColdOnly)
    } else {
        None
    }
}

/// Everything the daemon needs to upload a program. `slot` counts from 1.
#[derive(Debug, Clone, PartialEq, Eq)]
pub struct UploadProgramOpts {
    pub name: String,
    pub description: String,
    pub icon: String,
    pub program_type: String,
    pub slot: u8,
    pub compression: bool,
    pub after_upload: AfterUpload,
    pub data: ProgramData,
}

/// The description an upload gets when none is given.
pub open spec fn default_description() -> Seq<char> {
    "Uploaded with v5d"@
}

/// The program type an upload gets when none is given.
pub open spec fn default_program_type() -> Seq<char> {
    "Unknown"@
}

/// The texts of an upload: the given name or else `fallback_name` (the stem
/// of the first binary's file name), and the given description and program
/// type or else their defaults.
pub fn program_texts(
    name: Option<String>,
    fallback_name: String,
    description: Option<String>,
    program_type: Option<String>,
) -> (r: (String, String, String))
    ensures
        r.0@ == (match name {
            Some(n) => n@,
            None => fallback_name@,
        }),
        r.1@ == (match description {
            Some(d) => d@,
            None => default_description(),
        }),
        r.2@ == (match program_type {
            Some(t) => t@,
            None => default_program_type(),
        }),
{
    let n = match name {
        Some(n) => n,
        None => fallback_name,
    };
    let d = match description {
        Some(d) => d,
        None => String::from_str("Uploaded with v5d"),
    };
    let t = match program_type {
        Some(t) => t,
        None => String::from_str("Unknown"),
    };
    (n, d, t)
}

/// The error text for a PIN of the wrong length.
pub open spec fn pin_length_message() -> Seq<char> {
    "Must be exactly 4 characters"@
}

/// The error text for a PIN with a character that is not a digit.
pub open spec fn pin_digits_message() -> Seq<char> {
    "Must contain only numeric digits"@
}

/// Whether byte `b` is an ASCII decimal digit.
pub open spec fn is_digit_byte(b: u8) -> bool {
    48 <= b <= 57
}

/// Reads a four-digit pairing PIN: four bytes, each an ASCII digit, give
/// their digit values. A text of another byte length, or with another
/// character, is refused with a message that says which.
pub fn validate_pin(s: &str) -> (r: Result<[u8; 4], String>)
    ensures
        s.spec_bytes().len() != 4 ==> (r matches Err(m) && m@ == pin_length_message()),
        s.spec_bytes().len() == 4 && !(forall|i: int| 0 <= i < 4 ==> is_digit_byte(#[trigger] s.spec_bytes()[i]))
            ==> (r matches Err(m) && m@ == pin_digits_message()),
        s.spec_bytes().len() == 4 && (forall|i: int| 0 <= i < 4 ==> is_digit_byte(#[trigger] s.spec_bytes()[i]))
            ==> (r matches Ok(pin) && forall|i: int| 0 <= i < 4 ==> #[trigger] pin@[i] == s.spec_bytes()[i] - 48),
{
    let bytes = s.as_bytes();
    if bytes.len() != 4 {
        return Err(String::from_str("Must be exactly 4 characters"));
    }
    let mut i: usize = 0;
    while i < 4
        invariant
            bytes@ == s.spec_bytes(),
            bytes@.len() == 4,
            i <= 4,
            forall|j: int| 0 <= j < i ==> is_digit_byte(#[trigger] bytes@[j]),
        decreases 4 - i,
    {
        if bytes[i] < 48 || bytes[i] > 57 {
            return Err(String::from_str("Must contain only numeric digits"));
        }
        i = i + 1;
    }
    let pin: [u8; 4] = [bytes[0] - 48, bytes[1] - 48, bytes[2] - 48, bytes[3] - 48];
    Ok(pin)
}

} // verus!
