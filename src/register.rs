use vstd::prelude::*;
use crate::errors::KakError;
use crate::text::str_eq;

verus! {

/// A named register of the editor: a digit, a letter, or one of the symbolic
/// registers.
#[derive(Clone, Copy, Debug, PartialEq, Eq, Structural)]
pub enum Register {
    Numeric0,
    Numeric1,
    Numeric2,
    Numeric3,
    Numeric4,
    Numeric5,
    Numeric6,
    Numeric7,
    Numeric8,
    Numeric9,
    UppercaseA,
    UppercaseB,
    UppercaseC,
    UppercaseD,
    UppercaseE,
    UppercaseF,
    UppercaseG,
    UppercaseH,
    UppercaseI,
    UppercaseJ,
    UppercaseK,
    UppercaseL,
    UppercaseM,
    UppercaseN,
    UppercaseO,
    UppercaseP,
    UppercaseQ,
    UppercaseR,
    UppercaseS,
    UppercaseT,
    UppercaseU,
    UppercaseV,
    UppercaseW,
    UppercaseX,
    UppercaseY,
    UppercaseZ,
    LowercaseA,
    LowercaseB,
    LowercaseC,
    LowercaseD,
    LowercaseE,
    LowercaseF,
    LowercaseG,
    LowercaseH,
    LowercaseI,
    LowercaseJ,
    LowercaseK,
    LowercaseL,
    LowercaseM,
    LowercaseN,
    LowercaseO,
    LowercaseP,
    LowercaseQ,
    LowercaseR,
    LowercaseS,
    LowercaseT,
    LowercaseU,
    LowercaseV,
    LowercaseW,
    LowercaseX,
    LowercaseY,
    LowercaseZ,
    Dquote,
    Slash,
    Arobase,
    Caret,
    Pipe,
    Percent,
    Dot,
    Hash,
    Underscore,
    Colon,
}

impl Register {
    /// The character that names the register.
    pub open spec fn name_char(self) -> char {
        match self {
            Register::Numeric0 => '0',
            Register::Numeric1 => '1',
            Register::Numeric2 => '2',
            Register::Numeric3 => '3',
            Register::Numeric4 => '4',
            Register::Numeric5 => '5',
            Register::Numeric6 => '6',
            Register::Numeric7 => '7',
            Register::Numeric8 => '8',
            Register::Numeric9 => '9',
            Register::UppercaseA => 'A',
            Register::UppercaseB => 'B',
            Register::UppercaseC => 'C',
            Register::UppercaseD => 'D',
            Register::UppercaseE => 'E',
            Register::UppercaseF => 'F',
            Register::UppercaseG => 'G',
            Register::UppercaseH => 'H',
            Register::UppercaseI => 'I',
            Register::UppercaseJ => 'J',
            Register::UppercaseK => 'K',
            Register::UppercaseL => 'L',
            Register::UppercaseM => 'M',
            Register::UppercaseN => 'N',
            Register::UppercaseO => 'O',
            Register::UppercaseP => 'P',
            Register::UppercaseQ => 'Q',
            Register::UppercaseR => 'R',
            Register::UppercaseS => 'S',
            Register::UppercaseT => 'T',
            Register::UppercaseU => 'U',
            Register::UppercaseV => 'V',
            Register::UppercaseW => 'W',
            Register::UppercaseX => 'X',
            Register::UppercaseY => 'Y',
            Register::UppercaseZ => 'Z',
            Register::LowercaseA => 'a',
            Register::LowercaseB => 'b',
            Register::LowercaseC => 'c',
            Register::LowercaseD => 'd',
            Register::LowercaseE => 'e',
            Register::LowercaseF => 'f',
            Register::LowercaseG => 'g',
            Register::LowercaseH => 'h',
            Register::LowercaseI => 'i',
            Register::LowercaseJ => 'j',
            Register::LowercaseK => 'k',
            Register::LowercaseL => 'l',
            Register::LowercaseM => 'm',
            Register::LowercaseN => 'n',
            Register::LowercaseO => 'o',
            Register::LowercaseP => 'p',
            Register::LowercaseQ => 'q',
            Register::LowercaseR => 'r',
            Register::LowercaseS => 's',
            Register::LowercaseT => 't',
            Register::LowercaseU => 'u',
            Register::LowercaseV => 'v',
            Register::LowercaseW => 'w',
            Register::LowercaseX => 'x',
            Register::LowercaseY => 'y',
            Register::LowercaseZ => 'z',
            Register::Dquote => '"',
            Register::Slash => '/',
            Register::Arobase => '@',
            Register::Caret => '^',
            Register::Pipe => '|',
            Register::Percent => '%',
            Register::Dot => '.',
            Register::Hash => '#',
            Register::Underscore => '_',
            Register::Colon => ':',
        }
    }

    /// The spelled-out name of a symbolic register; empty for the others.
    pub open spec fn long_name(self) -> Seq<char> {
        match self {
            Register::Dquote => "dquote"@,
            Register::Slash => "slash"@,
            Register::Arobase => "arobase"@,
            Register::Caret => "caret"@,
            Register::Pipe => "pipe"@,
            Register::Percent => "percent"@,
            Register::Dot => "dot"@,
            Register::Hash => "hash"@,
            Register::Underscore => "underscore"@,
            Register::Colon => "colon"@,
            _ => Seq::empty(),
        }
    }

    pub open spec fn is_symbolic(self) -> bool {
        self.long_name().len() > 0
    }

    /// The register's name as the editor's command language quotes it: the
    /// double quote is escaped with a backslash.
    pub open spec fn escaped_name(self) -> Seq<char> {
        if self == Register::Dquote {
            seq!['\\', '"']
        } else {
            seq![self.name_char()]
        }
    }

    /// The register's name as the editor expands it in a `%reg{..}` expression.
    pub open spec fn expanded_name(self) -> Seq<char> {
        if self.is_symbolic() {
            self.long_name()
        } else {
            self.escaped_name()
        }
    }

    /// `s` names the register: by its character, or by its spelled-out name.
    pub open spec fn named_by(self, s: Seq<char>) -> bool {
        s == seq![self.name_char()] || (self.is_symbolic() && s == self.long_name())
    }

    pub fn to_char(&self) -> (r: char)
        ensures
            r == self.name_char(),
    {
        match self {
            Register::Numeric0 => '0',
            Register::Numeric1 => '1',
            Register::Numeric2 => '2',
            Register::Numeric3 => '3',
            Register::Numeric4 => '4',
            Register::Numeric5 => '5',
            Register::Numeric6 => '6',
            Register::Numeric7 => '7',
            Register::Numeric8 => '8',
            Register::Numeric9 => '9',
            Register::UppercaseA => 'A',
            Register::UppercaseB => 'B',
            Register::UppercaseC => 'C',
            Register::UppercaseD => 'D',
            Register::UppercaseE => 'E',
            Register::UppercaseF => 'F',
            Register::UppercaseG => 'G',
            Register::UppercaseH => 'H',
            Register::UppercaseI => 'I',
            Register::UppercaseJ => 'J',
            Register::UppercaseK => 'K',
            Register::UppercaseL => 'L',
            Register::UppercaseM => 'M',
            Register::UppercaseN => 'N',
            Register::UppercaseO => 'O',
            Register::UppercaseP => 'P',
            Register::UppercaseQ => 'Q',
            Register::UppercaseR => 'R',
            Register::UppercaseS => 'S',
            Register::UppercaseT => 'T',
            Register::UppercaseU => 'U',
            Register::UppercaseV => 'V',
            Register::UppercaseW => 'W',
            Register::UppercaseX => 'X',
            Register::UppercaseY => 'Y',
            Register::UppercaseZ => 'Z',
            Register::LowercaseA => 'a',
            Register::LowercaseB => 'b',
            Register::LowercaseC => 'c',
            Register::LowercaseD => 'd',
            Register::LowercaseE => 'e',
            Register::LowercaseF => 'f',
            Register::LowercaseG => 'g',
            Register::LowercaseH => 'h',
            Register::LowercaseI => 'i',
            Register::LowercaseJ => 'j',
            Register::LowercaseK => 'k',
            Register::LowercaseL => 'l',
            Register::LowercaseM => 'm',
            Register::LowercaseN => 'n',
            Register::LowercaseO => 'o',
            Register::LowercaseP => 'p',
            Register::LowercaseQ => 'q',
            Register::LowercaseR => 'r',
            Register::LowercaseS => 's',
            Register::LowercaseT => 't',
            Register::LowercaseU => 'u',
            Register::LowercaseV => 'v',
            Register::LowercaseW => 'w',
            Register::LowercaseX => 'x',
            Register::LowercaseY => 'y',
            Register::LowercaseZ => 'z',
            Register::Dquote => '"',
            Register::Slash => '/',
            Register::Arobase => '@',
            Register::Caret => '^',
            Register::Pipe => '|',
            Register::Percent => '%',
            Register::Dot => '.',
            Register::Hash => '#',
            Register::Underscore => '_',
            Register::Colon => ':',
        }
    }

    pub fn kak_escaped(&self) -> (r: &'static str)
        ensures
            r@ == self.escaped_name(),
    {
        match self {
            Register::Numeric0 => {
                proof { reveal_strlit("0"); }
                "0"
            },
            Register::Numeric1 => {
                proof { reveal_strlit("1"); }
                "1"
            },
            Register::Numeric2 => {
                proof { reveal_strlit("2"); }
                "2"
            },
            Register::Numeric3 => {
                proof { reveal_strlit("3"); }
                "3"
            },
            Register::Numeric4 => {
                proof { reveal_strlit("4"); }
                "4"
            },
            Register::Numeric5 => {
                proof { reveal_strlit("5"); }
                "5"
            },
            Register::Numeric6 => {
                proof { reveal_strlit("6"); }
                "6"
            },
            Register::Numeric7 => {
                proof { reveal_strlit("7"); }
                "7"
            },
            Register::Numeric8 => {
                proof { reveal_strlit("8"); }
                "8"
            },
            Register::Numeric9 => {
                proof { reveal_strlit("9"); }
                "9"
            },
            Register::UppercaseA => {
                proof { reveal_strlit("A"); }
                "A"
            },
            Register::UppercaseB => {
                proof { reveal_strlit("B"); }
                "B"
            },
            Register::UppercaseC => {
                proof { reveal_strlit("C"); }
                "C"
            },
            Register::UppercaseD => {
                proof { reveal_strlit("D"); }
                "D"
            },
            Register::UppercaseE => {
                proof { reveal_strlit("E"); }
                "E"
            },
            Register::UppercaseF => {
                proof { reveal_strlit("F"); }
                "F"
            },
            Register::UppercaseG => {
                proof { reveal_strlit("G"); }
                "G"
            },
            Register::UppercaseH => {
                proof { reveal_strlit("H"); }
                "H"
            },
            Register::UppercaseI => {
                proof { reveal_strlit("I"); }
                "I"
            },
            Register::UppercaseJ => {
                proof { reveal_strlit("J"); }
                "J"
            },
            Register::UppercaseK => {
                proof { reveal_strlit("K"); }
                "K"
            },
            Register::UppercaseL => {
                proof { reveal_strlit("L"); }
                "L"
            },
            Register::UppercaseM => {
                proof { reveal_strlit("M"); }
                "M"
            },
            Register::UppercaseN => {
                proof { reveal_strlit("N"); }
                "N"
            },
            Register::UppercaseO => {
                proof { reveal_strlit("O"); }
                "O"
            },
            Register::UppercaseP => {
                proof { reveal_strlit("P"); }
                "P"
            },
            Register::UppercaseQ => {
                proof { reveal_strlit("Q"); }
                "Q"
            },
            Register::UppercaseR => {
                proof { reveal_strlit("R"); }
                "R"
            },
            Register::UppercaseS => {
                proof { reveal_strlit("S"); }
                "S"
            },
            Register::UppercaseT => {
                proof { reveal_strlit("T"); }
                "T"
            },
            Register::UppercaseU => {
                proof { reveal_strlit("U"); }
                "U"
            },
            Register::UppercaseV => {
                proof { reveal_strlit("V"); }
                "V"
            },
            Register::UppercaseW => {
                proof { reveal_strlit("W"); }
                "W"
            },
            Register::UppercaseX => {
                proof { reveal_strlit("X"); }
                "X"
            },
            Register::UppercaseY => {
                proof { reveal_strlit("Y"); }
                "Y"
            },
            Register::UppercaseZ => {
                proof { reveal_strlit("Z"); }
                "Z"
            },
            Register::LowercaseA => {
                proof { reveal_strlit("a"); }
                "a"
            },
            Register::LowercaseB => {
                proof { reveal_strlit("b"); }
                "b"
            },
            Register::LowercaseC => {
                proof { reveal_strlit("c"); }
                "c"
            },
            Register::LowercaseD => {
                proof { reveal_strlit("d"); }
                "d"
            },
            Register::LowercaseE => {
                proof { reveal_strlit("e"); }
                "e"
            },
            Register::LowercaseF => {
                proof { reveal_strlit("f"); }
                "f"
            },
            Register::LowercaseG => {
                proof { reveal_strlit("g"); }
                "g"
            },
            Register::LowercaseH => {
                proof { reveal_strlit("h"); }
                "h"
            },
            Register::LowercaseI => {
                proof { reveal_strlit("i"); }
                "i"
            },
            Register::LowercaseJ => {
                proof { reveal_strlit("j"); }
                "j"
            },
            Register::LowercaseK => {
                proof { reveal_strlit("k"); }
                "k"
            },
            Register::LowercaseL => {
                proof { reveal_strlit("l"); }
                "l"
            },
            Register::LowercaseM => {
                proof { reveal_strlit("m"); }
                "m"
            },
            Register::LowercaseN => {
                proof { reveal_strlit("n"); }
                "n"
            },
            Register::LowercaseO => {
                proof { reveal_strlit("o"); }
                "o"
            },
            Register::LowercaseP => {
                proof { reveal_strlit("p"); }
                "p"
            },
            Register::LowercaseQ => {
                proof { reveal_strlit("q"); }
                "q"
            },
            Register::LowercaseR => {
                proof { reveal_strlit("r"); }
                "r"
            },
            Register::LowercaseS => {
                proof { reveal_strlit("s"); }
                "s"
            },
            Register::LowercaseT => {
                proof { reveal_strlit("t"); }
                "t"
            },
            Register::LowercaseU => {
                proof { reveal_strlit("u"); }
                "u"
            },
            Register::LowercaseV => {
                proof { reveal_strlit("v"); }
                "v"
            },
            Register::LowercaseW => {
                proof { reveal_strlit("w"); }
                "w"
            },
            Register::LowercaseX => {
                proof { reveal_strlit("x"); }
                "x"
            },
            Register::LowercaseY => {
                proof { reveal_strlit("y"); }
                "y"
            },
            Register::LowercaseZ => {
                proof { reveal_strlit("z"); }
                "z"
            },
            Register::Dquote => {
                proof { reveal_strlit("\\\""); }
                "\\\""
            },
            Register::Slash => {
                proof { reveal_strlit("/"); }
                "/"
            },
            Register::Arobase => {
                proof { reveal_strlit("@"); }
                "@"
            },
            Register::Caret => {
                proof { reveal_strlit("^"); }
                "^"
            },
            Register::Pipe => {
                proof { reveal_strlit("|"); }
                "|"
            },
            Register::Percent => {
                proof { reveal_strlit("%"); }
                "%"
            },
            Register::Dot => {
                proof { reveal_strlit("."); }
                "."
            },
            Register::Hash => {
                proof { reveal_strlit("#"); }
                "#"
            },
            Register::Underscore => {
                proof { reveal_strlit("_"); }
                "_"
            },
            Register::Colon => {
                proof { reveal_strlit(":"); }
                ":"
            },
        }
    }

    pub fn kak_expanded(&self) -> (r: &'static str)
        ensures
            r@ == self.expanded_name(),
    {
        match self {
            Register::Dquote => {
                proof { reveal_strlit("dquote"); }
                "dquote"
            },
            Register::Slash => {
                proof { reveal_strlit("slash"); }
                "slash"
            },
            Register::Arobase => {
                proof { reveal_strlit("arobase"); }
                "arobase"
            },
            Register::Caret => {
                proof { reveal_strlit("caret"); }
                "caret"
            },
            Register::Pipe => {
                proof { reveal_strlit("pipe"); }
                "pipe"
            },
            Register::Percent => {
                proof { reveal_strlit("percent"); }
                "percent"
            },
            Register::Dot => {
                proof { reveal_strlit("dot"); }
                "dot"
            },
            Register::Hash => {
                proof { reveal_strlit("hash"); }
                "hash"
            },
            Register::Underscore => {
                proof { reveal_strlit("underscore"); }
                "underscore"
            },
            Register::Colon => {
                proof { reveal_strlit("colon"); }
                "colon"
            },
            _ => self.kak_escaped(),
        }
    }

    /// The register named by a single character, if any.
    fn from_char(c: char) -> (r: Option<Register>)
        ensures
            match r {
                Some(reg) => reg.name_char() == c,
                None => forall|reg: Register| reg.name_char() != c,
            },
    {
        match c {
            '0' => Some(Register::Numeric0),
            '1' => Some(Register::Numeric1),
            '2' => Some(Register::Numeric2),
            '3' => Some(Register::Numeric3),
            '4' => Some(Register::Numeric4),
            '5' => Some(Register::Numeric5),
            '6' => Some(Register::Numeric6),
            '7' => Some(Register::Numeric7),
            '8' => Some(Register::Numeric8),
            '9' => Some(Register::Numeric9),
            'A' => Some(Register::UppercaseA),
            'B' => Some(Register::UppercaseB),
            'C' => Some(Register::UppercaseC),
            'D' => Some(Register::UppercaseD),
            'E' => Some(Register::UppercaseE),
            'F' => Some(Register::UppercaseF),
            'G' => Some(Register::UppercaseG),
            'H' => Some(Register::UppercaseH),
            'I' => Some(Register::UppercaseI),
            'J' => Some(Register::UppercaseJ),
            'K' => Some(Register::UppercaseK),
            'L' => Some(Register::UppercaseL),
            'M' => Some(Register::UppercaseM),
            'N' => Some(Register::UppercaseN),
            'O' => Some(Register::UppercaseO),
            'P' => Some(Register::UppercaseP),
            'Q' => Some(Register::UppercaseQ),
            'R' => Some(Register::UppercaseR),
            'S' => Some(Register::UppercaseS),
            'T' => Some(Register::UppercaseT),
            'U' => Some(Register::UppercaseU),
            'V' => Some(Register::UppercaseV),
            'W' => Some(Register::UppercaseW),
            'X' => Some(Register::UppercaseX),
            'Y' => Some(Register::UppercaseY),
            'Z' => Some(Register::UppercaseZ),
            'a' => Some(Register::LowercaseA),
            'b' => Some(Register::LowercaseB),
            'c' => Some(Register::LowercaseC),
            'd' => Some(Register::LowercaseD),
            'e' => Some(Register::LowercaseE),
            'f' => Some(Register::LowercaseF),
            'g' => Some(Register::LowercaseG),
            'h' => Some(Register::LowercaseH),
            'i' => Some(Register::LowercaseI),
            'j' => Some(Register::LowercaseJ),
            'k' => Some(Register::LowercaseK),
            'l' => Some(Register::LowercaseL),
            'm' => Some(Register::LowercaseM),
            'n' => Some(Register::LowercaseN),
            'o' => Some(Register::LowercaseO),
            'p' => Some(Register::LowercaseP),
            'q' => Some(Register::LowercaseQ),
            'r' => Some(Register::LowercaseR),
            's' => Some(Register::LowercaseS),
            't' => Some(Register::LowercaseT),
            'u' => Some(Register::LowercaseU),
            'v' => Some(Register::LowercaseV),
            'w' => Some(Register::LowercaseW),
            'x' => Some(Register::LowercaseX),
            'y' => Some(Register::LowercaseY),
            'z' => Some(Register::LowercaseZ),
            '"' => Some(Register::Dquote),
            '/' => Some(Register::Slash),
            '@' => Some(Register::Arobase),
            '^' => Some(Register::Caret),
            '|' => Some(Register::Pipe),
            '%' => Some(Register::Percent),
            '.' => Some(Register::Dot),
            '#' => Some(Register::Hash),
            '_' => Some(Register::Underscore),
            ':' => Some(Register::Colon),
            _ => None,
        }
    }

    /// The symbolic register with the spelled-out name `s`, if any.
    fn from_long_name(s: &str) -> (r: Option<Register>)
        ensures
            match r {
                Some(reg) => reg.is_symbolic() && s@ == reg.long_name(),
                None => forall|reg: Register| reg.is_symbolic() ==> s@ != reg.long_name(),
            },
    {
        proof {
            reveal_strlit("dquote");
            reveal_strlit("slash");
            reveal_strlit("arobase");
            reveal_strlit("caret");
            reveal_strlit("pipe");
            reveal_strlit("percent");
            reveal_strlit("dot");
            reveal_strlit("hash");
            reveal_strlit("underscore");
            reveal_strlit("colon");
        }
        if str_eq(s, "dquote") {
            return Some(Register::Dquote);
        }
        if str_eq(s, "slash") {
            return Some(Register::Slash);
        }
        if str_eq(s, "arobase") {
            return Some(Register::Arobase);
        }
        if str_eq(s, "caret") {
            return Some(Register::Caret);
        }
        if str_eq(s, "pipe") {
            return Some(Register::Pipe);
        }
        if str_eq(s, "percent") {
            return Some(Register::Percent);
        }
        if str_eq(s, "dot") {
            return Some(Register::Dot);
        }
        if str_eq(s, "hash") {
            return Some(Register::Hash);
        }
        if str_eq(s, "underscore") {
            return Some(Register::Underscore);
        }
        if str_eq(s, "colon") {
            return Some(Register::Colon);
        }
        None
    }

    /// Parses a register from its character or its spelled-out name.
    pub fn from_str(s: &str) -> (r: Result<Register, KakError>)
        ensures
            match r {
                Ok(reg) => reg.named_by(s@),
                Err(e) => e is Parse && forall|reg: Register| !reg.named_by(s@),
            },
    {
        if s.unicode_len() == 1 {
            let c = s.get_char(0);
            match Register::from_char(c) {
                Some(reg) => {
                    proof { assert(s@ =~= seq![c]); }
                    return Ok(reg);
                }
                None => {
                    proof { assert(s@ =~= seq![c]); }
                }
            }
        }
        match Register::from_long_name(s) {
            Some(reg) => Ok(reg),
            None => {
                let mut msg = String::from_str("Register '");
                msg.append(s);
                msg.append("' could not be parsed");
                Err(KakError::Parse(msg))
            }
        }
    }
}

} // verus!
