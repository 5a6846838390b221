//! Source tags: the (file, line, function) record a program address resolves
//! to, together with the textual labels the reports are built from.

use vstd::prelude::*;

verus! {

/// The character for one digit value in base ten or sixteen, lower case.
pub open spec fn digit_char(d: int) -> char {
    if d == 0 {
        '0'
    } else if d == 1 {
        '1'
    } else if d == 2 {
        '2'
    } else if d == 3 {
        '3'
    } else if d == 4 {
        '4'
    } else if d == 5 {
        '5'
    } else if d == 6 {
        '6'
    } else if d == 7 {
        '7'
    } else if d == 8 {
        '8'
    } else if d == 9 {
        '9'
    } else if d == 10 {
        'a'
    } else if d == 11 {
        'b'
    } else if d == 12 {
        'c'
    } else if d == 13 {
        'd'
    } else if d == 14 {
        'e'
    } else {
        'f'
    }
}

/// The decimal rendering of `n`, without leading zeroes.
pub open spec fn dec_chars(n: nat) -> Seq<char>
    decreases n,
{
    if n < 10 {
        seq![digit_char(n as int)]
    } else {
        dec_chars(n / 10).push(digit_char((n % 10) as int))
    }
}

/// The lower-case hexadecimal rendering of `n`, without leading zeroes.
pub open spec fn hex_chars(n: nat) -> Seq<char>
    decreases n,
{
    if n < 16 {
        seq![digit_char(n as int)]
    } else {
        hex_chars(n / 16).push(digit_char((n % 16) as int))
    }
}

/// The one-character string for a digit value below sixteen.
pub(crate) fn digit_str(d: u8) -> (r: &'static str)
    requires
        d < 16,
    ensures
        r@ == seq![digit_char(d as int)],
{
    proof {
        reveal_strlit("0");
        reveal_strlit("1");
        reveal_strlit("2");
        reveal_strlit("3");
        reveal_strlit("4");
        reveal_strlit("5");
        reveal_strlit("6");
        reveal_strlit("7");
        reveal_strlit("8");
        reveal_strlit("9");
        reveal_strlit("a");
        reveal_strlit("b");
        reveal_strlit("c");
        reveal_strlit("d");
        reveal_strlit("e");
        reveal_strlit("f");
    }
    let r = match d {
        0 => "0",
        1 => "1",
        2 => "2",
        3 => "3",
        4 => "4",
        5 => "5",
        6 => "6",
        7 => "7",
        8 => "8",
        9 => "9",
        10 => "a",
        11 => "b",
        12 => "c",
        13 => "d",
        14 => "e",
        _ => "f",
    };
    proof {
        assert(r@ =~= seq![digit_char(d as int)]);
    }
    r
}

/// Render `n` in decimal.
pub fn u64_to_dec(n: u64) -> (r: String)
    ensures
        r@ == dec_chars(n as nat),
    decreases n,
{
    if n < 10 {
        let r = String::from_str(digit_str(n as u8));
        proof {
            assert(r@ =~= dec_chars(n as nat));
        }
        r
    } else {
        let mut s = u64_to_dec(n / 10);
        s.append(digit_str((n % 10) as u8));
        proof {
            assert(s@ =~= dec_chars(n as nat));
        }
        s
    }
}

/// Render `n` in lower-case hexadecimal.
pub fn u64_to_hex(n: u64) -> (r: String)
    ensures
        r@ == hex_chars(n as nat),
    decreases n,
{
    if n < 16 {
        let r = String::from_str(digit_str(n as u8));
        proof {
            assert(r@ =~= hex_chars(n as nat));
        }
        r
    } else {
        let mut s = u64_to_hex(n / 16);
        s.append(digit_str((n % 16) as u8));
        proof {
            assert(s@ =~= hex_chars(n as nat));
        }
        s
    }
}

/// The line number recorded when the debug information offers none.
pub open spec fn unknown_line() -> u32 {
    0xffffffffu32
}

/// The sentinel text recorded when a file or function name is unknown.
pub open spec fn unknown_text() -> Seq<char> {
    "??"@
}

/// Two tag records that agree on every observable field.
pub open spec fn tags_match(a: Tags, b: Tags) -> bool {
    &&& a.addr == b.addr
    &&& a.file@ == b.file@
    &&& a.line == b.line
    &&& a.func@ == b.func@
}

/// The source record memoized for one program address: file, line and
/// function name, with sentinels where the debug information is silent.
pub struct Tags {
    pub addr: u64,
    pub file: String,
    pub line: u32,
    pub func: String,
}

impl Tags {
    /// The function label: the resolved name, or a synthesized
    /// `func_0x<addr>` label when no name was found.
    pub open spec fn func_label(self) -> Seq<char> {
        if self.func@ != unknown_text() {
            self.func@
        } else {
            "func_0x"@ + hex_chars(self.addr as nat)
        }
    }

    /// The `file:function` label used by the flamegraph report.
    pub open spec fn simple_label(self) -> Seq<char> {
        self.file@ + ":"@ + self.func_label()
    }

    /// The `file:line:function` label used by stack traces; the line is
    /// `??` when unknown.
    pub open spec fn detail_label(self) -> Seq<char> {
        if self.line == unknown_line() {
            self.file@ + ":??:"@ + self.func@
        } else {
            self.file@ + ":"@ + dec_chars(self.line as nat) + ":"@ + self.func@
        }
    }

    /// A record for `addr` holding only sentinels.
    pub fn new(addr: u64) -> (r: Tags)
        ensures
            r.addr == addr,
            r.file@ == unknown_text(),
            r.line == unknown_line(),
            r.func@ == unknown_text(),
    {
        Tags {
            addr,
            file: String::from_str("??"),
            line: 0xffffffff,
            func: String::from_str("??"),
        }
    }

    /// A fresh record with the same observable fields.
    pub fn duplicate(&self) -> (r: Tags)
        ensures
            tags_match(r, *self),
    {
        Tags {
            addr: self.addr,
            file: self.file.clone(),
            line: self.line,
            func: self.func.clone(),
        }
    }

    /// The resolved function name, or `func_0x<addr>` when none was found.
    pub fn func(&self) -> (r: String)
        ensures
            r@ == self.func_label(),
    {
        let unknown = String::from_str("??");
        if self.func != unknown {
            self.func.clone()
        } else {
            let mut s = String::from_str("func_0x");
            let hex = u64_to_hex(self.addr);
            s.append(hex.as_str());
            s
        }
    }

    /// The `file:function` label.
    pub fn simple(&self) -> (r: String)
        ensures
            r@ == self.simple_label(),
    {
        let mut s = self.file.clone();
        s.append(":");
        let f = self.func();
        s.append(f.as_str());
        proof {
            assert(s@ =~= self.simple_label());
        }
        s
    }

    /// The `file:line:function` label.
    pub fn detail(&self) -> (r: String)
        ensures
            r@ == self.detail_label(),
    {
        let mut s = self.file.clone();
        if self.line == 0xffffffff {
            s.append(":??:");
            s.append(self.func.as_str());
        } else {
            s.append(":");
            let line = u64_to_dec(self.line as u64);
            s.append(line.as_str());
            s.append(":");
            s.append(self.func.as_str());
        }
        proof {
            assert(s@ =~= self.detail_label());
        }
        s
    }
}

} // verus!
