//! A model of the x86 instructions that the listings use.
//!
//! The processor runs a piece of code from an offset in it.  Memory is kept in cells:
//! 32-bit cells, 16-bit cells and bytes, each by its address; cells of different width,
//! and cells that overlap, are kept apart.  A call that leaves the piece of code is noted
//! with where it goes and what it is given; what comes back of it is part of the state.

use vstd::prelude::*;

use crate::code;

verus! {

/// The eight registers, in the order of their numbers.
pub struct Regs {
    pub eax: u32,
    pub ecx: u32,
    pub edx: u32,
    pub ebx: u32,
    pub esp: u32,
    pub ebp: u32,
    pub esi: u32,
    pub edi: u32,
}

/// The outcome of the last comparison: equal, below (without signs), less (with signs).
pub struct Flags {
    pub zf: bool,
    pub cf: bool,
    pub less: bool,
}

/// A call that leaves the code: where it goes, what `ecx` and memory hold and what stands
/// on the stack, from the top.
pub struct Call {
    pub target: u32,
    pub ecx: u32,
    pub stack: Seq<u32>,
    pub mem: Map<u32, u32>,
}

/// What a call comes back with: the registers that a function may change, and how many
/// bytes of the stack it takes off.
pub struct Reply {
    pub eax: u32,
    pub ecx: u32,
    pub edx: u32,
    pub flags: Flags,
    pub pops: u32,
}

/// The state of the processor.
pub struct Cpu {
    /// Where the code stands.
    pub origin: u32,
    /// The offset of the next instruction.
    pub ip: int,
    pub r: Regs,
    pub f: Flags,
    pub mem: Map<u32, u32>,
    pub mem16: Map<u32, u16>,
    pub mem8: Map<u32, u8>,
    /// The calls that were made.
    pub calls: Seq<Call>,
    /// What the next calls will come back with.
    pub replies: Seq<Reply>,
    /// Whether the code has returned.
    pub returned: bool,
}

/// A number as 32 bits.
#[verifier::opaque]
pub open spec fn wrap(x: int) -> u32 {
    (x % 0x1_0000_0000) as u32
}

/// A number with its sign.
pub open spec fn signed(x: u32) -> int {
    if x < 0x8000_0000 {
        x as int
    } else {
        x - 0x1_0000_0000
    }
}

/// A byte with its sign.
pub open spec fn signed8(x: u8) -> int {
    if x < 128 {
        x as int
    } else {
        x - 256
    }
}

/// The 32-bit operand at an offset.
pub open spec fn word_at(c: Seq<u8>, at: int) -> u32 {
    code::from_le32(c.subrange(at, at + 4))
}

impl Regs {
    pub open spec fn get(self, n: int) -> u32 {
        if n == 0 {
            self.eax
        } else if n == 1 {
            self.ecx
        } else if n == 2 {
            self.edx
        } else if n == 3 {
            self.ebx
        } else if n == 4 {
            self.esp
        } else if n == 5 {
            self.ebp
        } else if n == 6 {
            self.esi
        } else {
            self.edi
        }
    }

    /// The lowest byte of one of the first four registers.
    pub open spec fn get8(self, n: int) -> u8 {
        (self.get(n) % 256) as u8
    }

    pub open spec fn set8(self, n: int, x: u8) -> Regs {
        self.set(n, (self.get(n) - self.get(n) % 256 + x) as u32)
    }

    /// The lower half of a register.
    pub open spec fn get16(self, n: int) -> u16 {
        (self.get(n) % 0x1_0000) as u16
    }

    pub open spec fn set16(self, n: int, x: u16) -> Regs {
        self.set(n, (self.get(n) - self.get(n) % 0x1_0000 + x) as u32)
    }

    pub open spec fn set(self, n: int, x: u32) -> Regs {
        if n == 0 {
            Regs { eax: x, ..self }
        } else if n == 1 {
            Regs { ecx: x, ..self }
        } else if n == 2 {
            Regs { edx: x, ..self }
        } else if n == 3 {
            Regs { ebx: x, ..self }
        } else if n == 4 {
            Regs { esp: x, ..self }
        } else if n == 5 {
            Regs { ebp: x, ..self }
        } else if n == 6 {
            Regs { esi: x, ..self }
        } else {
            Regs { edi: x, ..self }
        }
    }
}

/// Where an instruction finds or puts something.
pub enum Place {
    Reg(int),
    /// At base register (-1 for none) plus index register (-1 for none) times scale plus
    /// displacement.
    Mem { base: int, index: int, scale: int, disp: int },
}

/// The place that the byte at `at` (and what follows it) names.
#[verifier::opaque]
pub open spec fn place(c: Seq<u8>, at: int) -> Place {
    let b = c[at] as int;
    let (m, r) = (b / 64, b % 8);
    if m == 3 {
        Place::Reg(r)
    } else if m == 0 && r == 5 {
        Place::Mem { base: -1, index: -1, scale: 1, disp: word_at(c, at + 1) as int }
    } else if m == 0 && r == 4 {
        let s = c[at + 1] as int;
        let k = s / 64;
        Place::Mem {
            base: s % 8,
            index: if s / 8 % 8 == 4 {
                -1
            } else {
                s / 8 % 8
            },
            scale: if k == 0 {
                1
            } else if k == 1 {
                2
            } else if k == 2 {
                4
            } else {
                8
            },
            disp: 0,
        }
    } else if m == 0 {
        Place::Mem { base: r, index: -1, scale: 1, disp: 0 }
    } else if m == 1 && r == 4 {
        let s = c[at + 1] as int;
        let k = s / 64;
        Place::Mem {
            base: s % 8,
            index: if s / 8 % 8 == 4 {
                -1
            } else {
                s / 8 % 8
            },
            scale: if k == 0 {
                1
            } else if k == 1 {
                2
            } else if k == 2 {
                4
            } else {
                8
            },
            disp: signed8(c[at + 2]),
        }
    } else if m == 1 {
        Place::Mem { base: r, index: -1, scale: 1, disp: signed8(c[at + 1]) }
    } else {
        Place::Mem { base: r, index: -1, scale: 1, disp: word_at(c, at + 1) as int }
    }
}

/// How many bytes name that place.
#[verifier::opaque]
pub open spec fn place_len(c: Seq<u8>, at: int) -> int {
    let b = c[at] as int;
    let (m, r) = (b / 64, b % 8);
    if m == 3 {
        1
    } else if m == 0 && r == 5 {
        5
    } else if m == 0 && r == 4 {
        2
    } else if m == 0 {
        1
    } else if m == 1 && r == 4 {
        3
    } else if m == 1 {
        2
    } else {
        5
    }
}

/// The register, or the kind of operation, that the byte at `at` names beside a place.
#[verifier::opaque]
pub open spec fn reg_at(c: Seq<u8>, at: int) -> int {
    c[at] as int / 8 % 8
}

impl Cpu {
    /// The address of a place in memory.
    #[verifier::opaque]
    pub open spec fn addr(self, p: Place) -> u32 {
        match p {
            Place::Reg(_) => 0,
            Place::Mem { base, index, scale, disp } => wrap(
                (if base >= 0 {
                    self.r.get(base) as int
                } else {
                    0
                }) + (if index >= 0 {
                    self.r.get(index) * scale
                } else {
                    0
                }) + disp,
            ),
        }
    }

    pub open spec fn read(self, p: Place) -> u32 {
        match p {
            Place::Reg(n) => self.r.get(n),
            _ => self.mem[self.addr(p)],
        }
    }

    pub open spec fn write(self, p: Place, x: u32) -> Cpu {
        match p {
            Place::Reg(n) => Cpu { r: self.r.set(n, x), ..self },
            _ => Cpu { mem: self.mem.insert(self.addr(p), x), ..self },
        }
    }

    pub open spec fn push(self, x: u32) -> Cpu {
        let esp = wrap(self.r.esp - 4);
        Cpu { r: Regs { esp, ..self.r }, mem: self.mem.insert(esp, x), ..self }
    }

    pub open spec fn pop(self) -> (u32, Cpu) {
        (
            self.mem[self.r.esp],
            Cpu { r: Regs { esp: wrap(self.r.esp + 4), ..self.r }, ..self },
        )
    }

    /// The next `n` cells of the stack, from the top.
    pub open spec fn top(self, n: nat) -> Seq<u32> {
        Seq::new(n, |i: int| self.mem[wrap(self.r.esp + 4 * i)])
    }

    /// A call that leaves the code.
    pub open spec fn call_out(self, target: u32) -> Cpu {
        let reply = self.replies[0];
        Cpu {
            r: Regs {
                eax: reply.eax,
                ecx: reply.ecx,
                edx: reply.edx,
                esp: wrap(self.r.esp + reply.pops),
                ..self.r
            },
            f: reply.flags,
            calls: self.calls.push(
                Call { target, ecx: self.r.ecx, stack: self.top(6), mem: self.mem },
            ),
            replies: self.replies.drop_first(),
            ..self
        }
    }

    pub open spec fn goto(self, ip: int) -> Cpu {
        Cpu { ip, ..self }
    }

    /// An operation of two numbers, by its kind: 0 adds, 4 is and, 5 subtracts, 6 is
    /// exclusive or, 7 compares; others are not modelled.
    pub open spec fn alu(self, kind: int, p: Place, y: u32) -> Cpu {
        let x = self.read(p);
        if kind == 0 {
            let s = Cpu {
                f: Flags {
                    zf: wrap(x + y) == 0,
                    cf: x + y > u32::MAX,
                    less: signed(x) + signed(y) < 0,
                },
                ..self
            };
            s.write(p, wrap(x + y))
        } else if kind == 5 || kind == 7 {
            let s = Cpu {
                f: Flags { zf: x == y, cf: x < y, less: signed(x) < signed(y) },
                ..self
            };
            if kind == 5 {
                s.write(p, wrap(x - y))
            } else {
                s
            }
        } else if kind == 4 {
            let s = Cpu {
                f: Flags { zf: x & y == 0, cf: false, less: signed(x & y) < 0 },
                ..self
            };
            s.write(p, x & y)
        } else {
            let s = Cpu {
                f: Flags { zf: x == y, cf: false, less: signed(x ^ y) < 0 },
                ..self
            };
            s.write(p, x ^ y)
        }
    }

    /// Counting up or down by one.
    pub open spec fn counted(self, p: Place, by: int) -> Cpu {
        let x = wrap(self.read(p) + by);
        Cpu { f: Flags { zf: x == 0, less: signed(x) < 0, ..self.f }, ..self.write(p, x) }
    }

    /// Dividing what `edx` and `eax` hold; not modelled where the outcome does not fit.
    #[verifier::opaque]
    pub open spec fn divided(self, by: u32) -> Cpu {
        let x = self.r.edx * 0x1_0000_0000 + self.r.eax;
        Cpu {
            r: Regs { eax: wrap(x / by as int), edx: wrap(x % by as int), ..self.r },
            ..self
        }
    }

    /// Copying as many bytes as `ecx` says from where `esi` points to where `edi` points.
    #[verifier::opaque]
    pub open spec fn copied(self) -> Cpu {
        let n = self.r.ecx as int;
        Cpu {
            mem8: Map::new(
                |a: u32| true,
                |a: u32|
                    if (a - self.r.edi) % 0x1_0000_0000 < n {
                        self.mem8[wrap(self.r.esi + (a - self.r.edi) % 0x1_0000_0000)]
                    } else {
                        self.mem8[a]
                    },
            ),
            r: Regs {
                ecx: 0,
                esi: wrap(self.r.esi + n),
                edi: wrap(self.r.edi + n),
                ..self.r
            },
            ..self
        }
    }

    /// Comparing the bits that two numbers share with none.
    pub open spec fn test(self, x: u32, y: u32) -> Cpu {
        let both = if x == y {
            x
        } else {
            x & y
        };
        Cpu { f: Flags { zf: both == 0, cf: false, less: signed(both) < 0 }, ..self }
    }
}

/// The flags that a word on the stack holds.
pub open spec fn flags_of(x: u32) -> Flags {
    Flags { zf: x % 2 == 1, cf: x / 2 % 2 == 1, less: x / 4 % 2 == 1 }
}

/// Flags survive the stack.
pub broadcast proof fn flags_survive(f: Flags)
    ensures
        flags_of(#[trigger] f.word()) == f,
{
}

impl Flags {
    /// The word that holds them on the stack.
    pub open spec fn word(self) -> u32 {
        ((if self.zf {
            1int
        } else {
            0
        }) + (if self.cf {
            2int
        } else {
            0
        }) + (if self.less {
            4int
        } else {
            0
        })) as u32
    }

    /// Whether a condition holds, by its number (4 equal, 7 above, 12 less, ...).
    pub open spec fn holds(self, cc: int) -> bool {
        if cc == 2 {
            self.cf
        } else if cc == 3 {
            !self.cf
        } else if cc == 4 {
            self.zf
        } else if cc == 5 {
            !self.zf
        } else if cc == 6 {
            self.cf || self.zf
        } else if cc == 7 {
            !self.cf && !self.zf
        } else if cc == 12 {
            self.less
        } else if cc == 13 {
            !self.less
        } else if cc == 14 {
            self.less || self.zf
        } else {
            !self.less && !self.zf
        }
    }
}

/// Where a branch with a 32-bit distance at `at` leads.
pub open spec fn far(c: Seq<u8>, at: int) -> int {
    at + 4 + signed(word_at(c, at))
}

/// Where a branch with an 8-bit distance at `at` leads.
pub open spec fn near(c: Seq<u8>, at: int) -> int {
    at + 1 + signed8(c[at])
}

/// One instruction.  The processor stays where it is once it has left the code, and where
/// it meets an instruction that is not modelled.
#[verifier::opaque]
pub open spec fn step(c: Seq<u8>, s: Cpu) -> Cpu {
    let at = s.ip;
    if at < 0 || at >= c.len() || s.returned {
        s
    } else {
        let op = c[at] as int;
        if 0x50 <= op && op < 0x58 {
            s.push(s.r.get(op - 0x50)).goto(at + 1)
        } else if 0x58 <= op && op < 0x60 {
            let (x, t) = s.pop();
            Cpu { r: t.r.set(op - 0x58, x), ..t }.goto(at + 1)
        } else if op == 0x60 {
            let e = s.r.esp;
            s.push(s.r.eax).push(s.r.ecx).push(s.r.edx).push(s.r.ebx).push(e).push(s.r.ebp).push(
                s.r.esi,
            ).push(s.r.edi).goto(at + 1)
        } else if op == 0x61 {
            let e = s.r.esp;
            Cpu {
                r: Regs {
                    edi: s.mem[e],
                    esi: s.mem[wrap(e + 4)],
                    ebp: s.mem[wrap(e + 8)],
                    ebx: s.mem[wrap(e + 16)],
                    edx: s.mem[wrap(e + 20)],
                    ecx: s.mem[wrap(e + 24)],
                    eax: s.mem[wrap(e + 28)],
                    esp: wrap(e + 32),
                },
                ..s
            }.goto(at + 1)
        } else if op == 0x68 {
            s.push(word_at(c, at + 1)).goto(at + 5)
        } else if op == 0x6A {
            s.push(wrap(signed8(c[at + 1]))).goto(at + 2)
        } else if 0xB8 <= op && op < 0xC0 {
            Cpu { r: s.r.set(op - 0xB8, word_at(c, at + 1)), ..s }.goto(at + 5)
        } else if op == 0xA1 {
            Cpu { r: Regs { eax: s.mem[word_at(c, at + 1)], ..s.r }, ..s }.goto(at + 5)
        } else if op == 0xA3 {
            Cpu { mem: s.mem.insert(word_at(c, at + 1), s.r.eax), ..s }.goto(at + 5)
        } else if op == 0x8B {
            Cpu { r: s.r.set(reg_at(c, at + 1), s.read(place(c, at + 1))), ..s }.goto(
                at + 1 + place_len(c, at + 1),
            )
        } else if op == 0x89 {
            s.write(place(c, at + 1), s.r.get(reg_at(c, at + 1))).goto(
                at + 1 + place_len(c, at + 1),
            )
        } else if op == 0x8D {
            Cpu { r: s.r.set(reg_at(c, at + 1), s.addr(place(c, at + 1))), ..s }.goto(
                at + 1 + place_len(c, at + 1),
            )
        } else if op == 0x01 || op == 0x29 || op == 0x31 || op == 0x39 {
            s.alu(op / 8, place(c, at + 1), s.r.get(reg_at(c, at + 1))).goto(
                at + 1 + place_len(c, at + 1),
            )
        } else if op == 0x03 || op == 0x2B || op == 0x33 || op == 0x3B {
            s.alu(op / 8, Place::Reg(reg_at(c, at + 1)), s.read(place(c, at + 1))).goto(
                at + 1 + place_len(c, at + 1),
            )
        } else if op == 0x85 {
            s.test(s.read(place(c, at + 1)), s.r.get(reg_at(c, at + 1))).goto(
                at + 1 + place_len(c, at + 1),
            )
        } else if op == 0x81 {
            let n = place_len(c, at + 1);
            s.alu(reg_at(c, at + 1), place(c, at + 1), word_at(c, at + 1 + n)).goto(at + 5 + n)
        } else if op == 0x83 {
            let n = place_len(c, at + 1);
            s.alu(reg_at(c, at + 1), place(c, at + 1), wrap(signed8(c[at + 1 + n]))).goto(
                at + 2 + n,
            )
        } else if op == 0xC7 {
            let n = place_len(c, at + 1);
            s.write(place(c, at + 1), word_at(c, at + 1 + n)).goto(at + 5 + n)
        } else if op == 0xFF && reg_at(c, at + 1) == 0 {
            s.counted(place(c, at + 1), 1).goto(at + 1 + place_len(c, at + 1))
        } else if op == 0xFF && reg_at(c, at + 1) == 2 {
            s.call_out(s.read(place(c, at + 1))).goto(at + 1 + place_len(c, at + 1))
        } else if op == 0xFF && reg_at(c, at + 1) == 6 {
            s.push(s.read(place(c, at + 1))).goto(at + 1 + place_len(c, at + 1))
        } else if op == 0xE8 {
            s.push(wrap(s.origin + at + 5)).goto(far(c, at + 1))
        } else if op == 0xE9 {
            s.goto(far(c, at + 1))
        } else if op == 0xEB {
            s.goto(near(c, at + 1))
        } else if 0x70 <= op && op < 0x80 {
            s.goto(
                if s.f.holds(op - 0x70) {
                    near(c, at + 1)
                } else {
                    at + 2
                },
            )
        } else if op == 0x0F && 0x80 <= c[at + 1] && c[at + 1] < 0x90 {
            s.goto(
                if s.f.holds(c[at + 1] - 0x80) {
                    far(c, at + 2)
                } else {
                    at + 6
                },
            )
        } else if op == 0x0F && c[at + 1] == 0xB7 {
            Cpu {
                r: s.r.set(reg_at(c, at + 2), s.mem16[s.addr(place(c, at + 2))] as u32),
                ..s
            }.goto(at + 2 + place_len(c, at + 2))
        } else if op == 0xC3 || op == 0xC2 {
            Cpu { returned: true, ..s }
        } else if op == 0xF0 {
            s.goto(at + 1)
        } else if op == 0x9C {
            s.push(s.f.word()).goto(at + 1)
        } else if op == 0x9D {
            let (x, t) = s.pop();
            Cpu { f: flags_of(x), ..t }.goto(at + 1)
        } else if 0x40 <= op && op < 0x48 {
            s.counted(Place::Reg(op - 0x40), 1).goto(at + 1)
        } else if 0x48 <= op && op < 0x50 {
            s.counted(Place::Reg(op - 0x48), -1).goto(at + 1)
        } else if op == 0x8A {
            Cpu { r: s.r.set8(reg_at(c, at + 1), s.mem8[s.addr(place(c, at + 1))]), ..s }.goto(
                at + 1 + place_len(c, at + 1),
            )
        } else if op == 0x88 {
            Cpu {
                mem8: s.mem8.insert(s.addr(place(c, at + 1)), s.r.get8(reg_at(c, at + 1))),
                ..s
            }.goto(at + 1 + place_len(c, at + 1))
        } else if op == 0xC6 {
            let n = place_len(c, at + 1);
            Cpu { mem8: s.mem8.insert(s.addr(place(c, at + 1)), c[at + 1 + n]), ..s }.goto(
                at + 2 + n,
            )
        } else if op == 0x6B {
            let n = place_len(c, at + 1);
            Cpu {
                r: s.r.set(
                    reg_at(c, at + 1),
                    wrap(signed(s.read(place(c, at + 1))) * signed8(c[at + 1 + n])),
                ),
                ..s
            }.goto(at + 2 + n)
        } else if op == 0xF3 && c[at + 1] == 0xA4 {
            s.copied().goto(at + 2)
        } else if op == 0xF7 && reg_at(c, at + 1) == 6 {
            s.divided(s.read(place(c, at + 1))).goto(at + 1 + place_len(c, at + 1))
        } else if op == 0x80 && c[at + 1] >= 192 && c[at + 1] < 196 {
            let n = c[at + 1] - 192;
            Cpu { r: s.r.set8(n, ((s.r.get8(n) + c[at + 2]) % 256) as u8), ..s }.goto(at + 3)
        } else if op == 0xE2 {
            let left = wrap(s.r.ecx - 1);
            Cpu { r: Regs { ecx: left, ..s.r }, ..s }.goto(
                if left != 0 {
                    near(c, at + 1)
                } else {
                    at + 2
                },
            )
        } else if op == 0xF7 && reg_at(c, at + 1) == 3 {
            let p = place(c, at + 1);
            s.write(p, wrap(-s.read(p))).goto(at + 1 + place_len(c, at + 1))
        } else if op == 0x66 && c[at + 1] == 0x81 && reg_at(c, at + 2) == 7 {
            let n = place_len(c, at + 2);
            let x = s.mem16[s.addr(place(c, at + 2))];
            let y = code::from_le16(c.subrange(at + 2 + n, at + 4 + n));
            Cpu { f: Flags { zf: x == y, cf: x < y, less: x < y }, ..s }.goto(at + 4 + n)
        } else if op == 0x0F && c[at + 1] == 0xBE {
            Cpu {
                r: s.r.set(
                    reg_at(c, at + 2),
                    wrap(signed8(s.mem8[s.addr(place(c, at + 2))])),
                ),
                ..s
            }.goto(at + 2 + place_len(c, at + 2))
        } else if op == 0x0F && c[at + 1] == 0xB6 && c[at + 2] == 0xC0 {
            Cpu { r: Regs { eax: s.r.eax % 256, ..s.r }, ..s }.goto(at + 3)
        } else if op == 0x3D {
            s.alu(7, Place::Reg(0), word_at(c, at + 1)).goto(at + 5)
        } else if op == 0x66 && c[at + 1] == 0x8B {
            Cpu { r: s.r.set16(reg_at(c, at + 2), s.mem16[s.addr(place(c, at + 2))]), ..s }.goto(
                at + 2 + place_len(c, at + 2),
            )
        } else if op == 0x66 && c[at + 1] == 0x89 && c[at + 2] >= 192 {
            Cpu {
                r: s.r.set16(c[at + 2] as int % 8, s.r.get16(c[at + 2] as int / 8 % 8)),
                ..s
            }.goto(at + 3)
        } else if op == 0x66 && c[at + 1] == 0x89 && c[at + 2] < 192 {
            Cpu {
                mem16: s.mem16.insert(s.addr(place(c, at + 2)), s.r.get16(reg_at(c, at + 2))),
                ..s
            }.goto(at + 2 + place_len(c, at + 2))
        } else if op == 0x66 && c[at + 1] == 0xA1 {
            Cpu { r: s.r.set16(0, s.mem16[word_at(c, at + 2)]), ..s }.goto(at + 6)
        } else if op == 0x66 && c[at + 1] == 0xA9 {
            let x = (s.r.get16(0) & code::from_le16(c.subrange(at + 2, at + 4))) as int;
            Cpu { f: Flags { zf: x == 0, cf: false, less: x >= 0x8000 }, ..s }.goto(at + 4)
        } else {
            s
        }
    }
}

// What each instruction does, from its first byte.

pub proof fn ins_push_reg(c: Seq<u8>, s: Cpu)
    requires
        0 <= s.ip < c.len(),
        !s.returned,
        ({
            let at = s.ip;
            let op = c[at] as int;
            0x50 <= op && op < 0x58
        }),
    ensures
        step(c, s) == ({
            let at = s.ip;
            let op = c[at] as int;
            s.push(s.r.get(op - 0x50)).goto(at + 1)
        }),
{
    reveal(step);
}

pub proof fn ins_pop_reg(c: Seq<u8>, s: Cpu)
    requires
        0 <= s.ip < c.len(),
        !s.returned,
        ({
            let at = s.ip;
            let op = c[at] as int;
            0x58 <= op && op < 0x60
        }),
    ensures
        step(c, s) == ({
            let at = s.ip;
            let op = c[at] as int;
            let (x, t) = s.pop();
        Cpu { r: t.r.set(op - 0x58, x), ..t }.goto(at + 1)
        }),
{
    reveal(step);
}

pub proof fn ins_pushad(c: Seq<u8>, s: Cpu)
    requires
        0 <= s.ip < c.len(),
        !s.returned,
        ({
            let at = s.ip;
            let op = c[at] as int;
            op == 0x60
        }),
    ensures
        step(c, s) == ({
            let at = s.ip;
            let op = c[at] as int;
            let e = s.r.esp;
        s.push(s.r.eax).push(s.r.ecx).push(s.r.edx).push(s.r.ebx).push(e).push(s.r.ebp).push(
            s.r.esi,
        ).push(s.r.edi).goto(at + 1)
        }),
{
    reveal(step);
}

pub proof fn ins_popad(c: Seq<u8>, s: Cpu)
    requires
        0 <= s.ip < c.len(),
        !s.returned,
        ({
            let at = s.ip;
            let op = c[at] as int;
            op == 0x61
        }),
    ensures
        step(c, s) == ({
            let at = s.ip;
            let op = c[at] as int;
            let e = s.r.esp;
        Cpu {
            r: Regs {
                edi: s.mem[e],
                esi: s.mem[wrap(e + 4)],
                ebp: s.mem[wrap(e + 8)],
                ebx: s.mem[wrap(e + 16)],
                edx: s.mem[wrap(e + 20)],
                ecx: s.mem[wrap(e + 24)],
                eax: s.mem[wrap(e + 28)],
                esp: wrap(e + 32),
            },
            ..s
        }.goto(at + 1)
        }),
{
    reveal(step);
}

pub proof fn ins_push_word(c: Seq<u8>, s: Cpu)
    requires
        0 <= s.ip < c.len(),
        !s.returned,
        ({
            let at = s.ip;
            let op = c[at] as int;
            op == 0x68
        }),
    ensures
        step(c, s) == ({
            let at = s.ip;
            let op = c[at] as int;
            s.push(word_at(c, at + 1)).goto(at + 5)
        }),
{
    reveal(step);
}

pub proof fn ins_push_byte(c: Seq<u8>, s: Cpu)
    requires
        0 <= s.ip < c.len(),
        !s.returned,
        ({
            let at = s.ip;
            let op = c[at] as int;
            op == 0x6A
        }),
    ensures
        step(c, s) == ({
            let at = s.ip;
            let op = c[at] as int;
            s.push(wrap(signed8(c[at + 1]))).goto(at + 2)
        }),
{
    reveal(step);
}

pub proof fn ins_mov_word(c: Seq<u8>, s: Cpu)
    requires
        0 <= s.ip < c.len(),
        !s.returned,
        ({
            let at = s.ip;
            let op = c[at] as int;
            0xB8 <= op && op < 0xC0
        }),
    ensures
        step(c, s) == ({
            let at = s.ip;
            let op = c[at] as int;
            Cpu { r: s.r.set(op - 0xB8, word_at(c, at + 1)), ..s }.goto(at + 5)
        }),
{
    reveal(step);
}

pub proof fn ins_load_eax(c: Seq<u8>, s: Cpu)
    requires
        0 <= s.ip < c.len(),
        !s.returned,
        ({
            let at = s.ip;
            let op = c[at] as int;
            op == 0xA1
        }),
    ensures
        step(c, s) == ({
            let at = s.ip;
            let op = c[at] as int;
            Cpu { r: Regs { eax: s.mem[word_at(c, at + 1)], ..s.r }, ..s }.goto(at + 5)
        }),
{
    reveal(step);
}

pub proof fn ins_store_eax(c: Seq<u8>, s: Cpu)
    requires
        0 <= s.ip < c.len(),
        !s.returned,
        ({
            let at = s.ip;
            let op = c[at] as int;
            op == 0xA3
        }),
    ensures
        step(c, s) == ({
            let at = s.ip;
            let op = c[at] as int;
            Cpu { mem: s.mem.insert(word_at(c, at + 1), s.r.eax), ..s }.goto(at + 5)
        }),
{
    reveal(step);
}

pub proof fn ins_load(c: Seq<u8>, s: Cpu)
    requires
        0 <= s.ip < c.len(),
        !s.returned,
        ({
            let at = s.ip;
            let op = c[at] as int;
            op == 0x8B
        }),
    ensures
        step(c, s) == ({
            let at = s.ip;
            let op = c[at] as int;
            Cpu { r: s.r.set(reg_at(c, at + 1), s.read(place(c, at + 1))), ..s }.goto(
            at + 1 + place_len(c, at + 1),
        )
        }),
{
    reveal(step);
}

pub proof fn ins_store(c: Seq<u8>, s: Cpu)
    requires
        0 <= s.ip < c.len(),
        !s.returned,
        ({
            let at = s.ip;
            let op = c[at] as int;
            op == 0x89
        }),
    ensures
        step(c, s) == ({
            let at = s.ip;
            let op = c[at] as int;
            s.write(place(c, at + 1), s.r.get(reg_at(c, at + 1))).goto(
            at + 1 + place_len(c, at + 1),
        )
        }),
{
    reveal(step);
}

pub proof fn ins_lea(c: Seq<u8>, s: Cpu)
    requires
        0 <= s.ip < c.len(),
        !s.returned,
        ({
            let at = s.ip;
            let op = c[at] as int;
            op == 0x8D
        }),
    ensures
        step(c, s) == ({
            let at = s.ip;
            let op = c[at] as int;
            Cpu { r: s.r.set(reg_at(c, at + 1), s.addr(place(c, at + 1))), ..s }.goto(
            at + 1 + place_len(c, at + 1),
        )
        }),
{
    reveal(step);
}

pub proof fn ins_alu_into(c: Seq<u8>, s: Cpu)
    requires
        0 <= s.ip < c.len(),
        !s.returned,
        ({
            let at = s.ip;
            let op = c[at] as int;
            op == 0x01 || op == 0x29 || op == 0x31 || op == 0x39
        }),
    ensures
        step(c, s) == ({
            let at = s.ip;
            let op = c[at] as int;
            s.alu(op / 8, place(c, at + 1), s.r.get(reg_at(c, at + 1))).goto(
            at + 1 + place_len(c, at + 1),
        )
        }),
{
    reveal(step);
}

pub proof fn ins_alu_from(c: Seq<u8>, s: Cpu)
    requires
        0 <= s.ip < c.len(),
        !s.returned,
        ({
            let at = s.ip;
            let op = c[at] as int;
            op == 0x03 || op == 0x2B || op == 0x33 || op == 0x3B
        }),
    ensures
        step(c, s) == ({
            let at = s.ip;
            let op = c[at] as int;
            s.alu(op / 8, Place::Reg(reg_at(c, at + 1)), s.read(place(c, at + 1))).goto(
            at + 1 + place_len(c, at + 1),
        )
        }),
{
    reveal(step);
}

pub proof fn ins_test(c: Seq<u8>, s: Cpu)
    requires
        0 <= s.ip < c.len(),
        !s.returned,
        ({
            let at = s.ip;
            let op = c[at] as int;
            op == 0x85
        }),
    ensures
        step(c, s) == ({
            let at = s.ip;
            let op = c[at] as int;
            s.test(s.read(place(c, at + 1)), s.r.get(reg_at(c, at + 1))).goto(
            at + 1 + place_len(c, at + 1),
        )
        }),
{
    reveal(step);
}

pub proof fn ins_alu_word(c: Seq<u8>, s: Cpu)
    requires
        0 <= s.ip < c.len(),
        !s.returned,
        ({
            let at = s.ip;
            let op = c[at] as int;
            op == 0x81
        }),
    ensures
        step(c, s) == ({
            let at = s.ip;
            let op = c[at] as int;
            let n = place_len(c, at + 1);
        s.alu(reg_at(c, at + 1), place(c, at + 1), word_at(c, at + 1 + n)).goto(at + 5 + n)
        }),
{
    reveal(step);
}

pub proof fn ins_alu_byte(c: Seq<u8>, s: Cpu)
    requires
        0 <= s.ip < c.len(),
        !s.returned,
        ({
            let at = s.ip;
            let op = c[at] as int;
            op == 0x83
        }),
    ensures
        step(c, s) == ({
            let at = s.ip;
            let op = c[at] as int;
            let n = place_len(c, at + 1);
        s.alu(reg_at(c, at + 1), place(c, at + 1), wrap(signed8(c[at + 1 + n]))).goto(
            at + 2 + n,
        )
        }),
{
    reveal(step);
}

pub proof fn ins_store_word(c: Seq<u8>, s: Cpu)
    requires
        0 <= s.ip < c.len(),
        !s.returned,
        ({
            let at = s.ip;
            let op = c[at] as int;
            op == 0xC7
        }),
    ensures
        step(c, s) == ({
            let at = s.ip;
            let op = c[at] as int;
            let n = place_len(c, at + 1);
        s.write(place(c, at + 1), word_at(c, at + 1 + n)).goto(at + 5 + n)
        }),
{
    reveal(step);
}

pub proof fn ins_inc(c: Seq<u8>, s: Cpu)
    requires
        0 <= s.ip < c.len(),
        !s.returned,
        ({
            let at = s.ip;
            let op = c[at] as int;
            op == 0xFF && reg_at(c, at + 1) == 0
        }),
    ensures
        step(c, s) == ({
            let at = s.ip;
            let op = c[at] as int;
            s.counted(place(c, at + 1), 1).goto(at + 1 + place_len(c, at + 1))
        }),
{
    reveal(step);
}

pub proof fn ins_call(c: Seq<u8>, s: Cpu)
    requires
        0 <= s.ip < c.len(),
        !s.returned,
        ({
            let at = s.ip;
            let op = c[at] as int;
            op == 0xFF && reg_at(c, at + 1) == 2
        }),
    ensures
        step(c, s) == ({
            let at = s.ip;
            let op = c[at] as int;
            s.call_out(s.read(place(c, at + 1))).goto(at + 1 + place_len(c, at + 1))
        }),
{
    reveal(step);
}

pub proof fn ins_push_place(c: Seq<u8>, s: Cpu)
    requires
        0 <= s.ip < c.len(),
        !s.returned,
        ({
            let at = s.ip;
            let op = c[at] as int;
            op == 0xFF && reg_at(c, at + 1) == 6
        }),
    ensures
        step(c, s) == ({
            let at = s.ip;
            let op = c[at] as int;
            s.push(s.read(place(c, at + 1))).goto(at + 1 + place_len(c, at + 1))
        }),
{
    reveal(step);
}

pub proof fn ins_call_in(c: Seq<u8>, s: Cpu)
    requires
        0 <= s.ip < c.len(),
        !s.returned,
        ({
            let at = s.ip;
            let op = c[at] as int;
            op == 0xE8
        }),
    ensures
        step(c, s) == ({
            let at = s.ip;
            let op = c[at] as int;
            s.push(wrap(s.origin + at + 5)).goto(far(c, at + 1))
        }),
{
    reveal(step);
}

pub proof fn ins_jump(c: Seq<u8>, s: Cpu)
    requires
        0 <= s.ip < c.len(),
        !s.returned,
        ({
            let at = s.ip;
            let op = c[at] as int;
            op == 0xE9
        }),
    ensures
        step(c, s) == ({
            let at = s.ip;
            let op = c[at] as int;
            s.goto(far(c, at + 1))
        }),
{
    reveal(step);
}

pub proof fn ins_jump_near(c: Seq<u8>, s: Cpu)
    requires
        0 <= s.ip < c.len(),
        !s.returned,
        ({
            let at = s.ip;
            let op = c[at] as int;
            op == 0xEB
        }),
    ensures
        step(c, s) == ({
            let at = s.ip;
            let op = c[at] as int;
            s.goto(near(c, at + 1))
        }),
{
    reveal(step);
}

pub proof fn ins_branch_near(c: Seq<u8>, s: Cpu)
    requires
        0 <= s.ip < c.len(),
        !s.returned,
        ({
            let at = s.ip;
            let op = c[at] as int;
            0x70 <= op && op < 0x80
        }),
    ensures
        step(c, s) == ({
            let at = s.ip;
            let op = c[at] as int;
            s.goto(
            if s.f.holds(op - 0x70) {
                near(c, at + 1)
            } else {
                at + 2
            },
        )
        }),
{
    reveal(step);
}

pub proof fn ins_branch(c: Seq<u8>, s: Cpu)
    requires
        0 <= s.ip < c.len(),
        !s.returned,
        ({
            let at = s.ip;
            let op = c[at] as int;
            op == 0x0F && 0x80 <= c[at + 1] && c[at + 1] < 0x90
        }),
    ensures
        step(c, s) == ({
            let at = s.ip;
            let op = c[at] as int;
            s.goto(
            if s.f.holds(c[at + 1] - 0x80) {
                far(c, at + 2)
            } else {
                at + 6
            },
        )
        }),
{
    reveal(step);
}

pub proof fn ins_load16(c: Seq<u8>, s: Cpu)
    requires
        0 <= s.ip < c.len(),
        !s.returned,
        ({
            let at = s.ip;
            let op = c[at] as int;
            op == 0x0F && c[at + 1] == 0xB7
        }),
    ensures
        step(c, s) == ({
            let at = s.ip;
            let op = c[at] as int;
            Cpu {
            r: s.r.set(reg_at(c, at + 2), s.mem16[s.addr(place(c, at + 2))] as u32),
            ..s
        }.goto(at + 2 + place_len(c, at + 2))
        }),
{
    reveal(step);
}

pub proof fn ins_ret(c: Seq<u8>, s: Cpu)
    requires
        0 <= s.ip < c.len(),
        !s.returned,
        ({
            let at = s.ip;
            let op = c[at] as int;
            op == 0xC3 || op == 0xC2
        }),
    ensures
        step(c, s) == ({
            let at = s.ip;
            let op = c[at] as int;
            Cpu { returned: true, ..s }
        }),
{
    reveal(step);
}

pub proof fn ins_lock(c: Seq<u8>, s: Cpu)
    requires
        0 <= s.ip < c.len(),
        !s.returned,
        ({
            let at = s.ip;
            let op = c[at] as int;
            op == 0xF0
        }),
    ensures
        step(c, s) == ({
            let at = s.ip;
            let op = c[at] as int;
            s.goto(at + 1)
        }),
{
    reveal(step);
}

pub proof fn ins_pushfd(c: Seq<u8>, s: Cpu)
    requires
        0 <= s.ip < c.len(),
        !s.returned,
        ({
            let at = s.ip;
            let op = c[at] as int;
            op == 0x9C
        }),
    ensures
        step(c, s) == ({
            let at = s.ip;
            let op = c[at] as int;
            s.push(s.f.word()).goto(at + 1)
        }),
{
    reveal(step);
}

pub proof fn ins_popfd(c: Seq<u8>, s: Cpu)
    requires
        0 <= s.ip < c.len(),
        !s.returned,
        ({
            let at = s.ip;
            let op = c[at] as int;
            op == 0x9D
        }),
    ensures
        step(c, s) == ({
            let at = s.ip;
            let op = c[at] as int;
            let (x, t) = s.pop();
        Cpu { f: flags_of(x), ..t }.goto(at + 1)
        }),
{
    reveal(step);
}

pub proof fn ins_inc_reg(c: Seq<u8>, s: Cpu)
    requires
        0 <= s.ip < c.len(),
        !s.returned,
        ({
            let at = s.ip;
            let op = c[at] as int;
            0x40 <= op && op < 0x48
        }),
    ensures
        step(c, s) == ({
            let at = s.ip;
            let op = c[at] as int;
            s.counted(Place::Reg(op - 0x40), 1).goto(at + 1)
        }),
{
    reveal(step);
}

pub proof fn ins_dec_reg(c: Seq<u8>, s: Cpu)
    requires
        0 <= s.ip < c.len(),
        !s.returned,
        ({
            let at = s.ip;
            let op = c[at] as int;
            0x48 <= op && op < 0x50
        }),
    ensures
        step(c, s) == ({
            let at = s.ip;
            let op = c[at] as int;
            s.counted(Place::Reg(op - 0x48), -1).goto(at + 1)
        }),
{
    reveal(step);
}

pub proof fn ins_load8(c: Seq<u8>, s: Cpu)
    requires
        0 <= s.ip < c.len(),
        !s.returned,
        ({
            let at = s.ip;
            let op = c[at] as int;
            op == 0x8A
        }),
    ensures
        step(c, s) == ({
            let at = s.ip;
            let op = c[at] as int;
            Cpu { r: s.r.set8(reg_at(c, at + 1), s.mem8[s.addr(place(c, at + 1))]), ..s }.goto(
            at + 1 + place_len(c, at + 1),
        )
        }),
{
    reveal(step);
}

pub proof fn ins_store8(c: Seq<u8>, s: Cpu)
    requires
        0 <= s.ip < c.len(),
        !s.returned,
        ({
            let at = s.ip;
            let op = c[at] as int;
            op == 0x88
        }),
    ensures
        step(c, s) == ({
            let at = s.ip;
            let op = c[at] as int;
            Cpu {
            mem8: s.mem8.insert(s.addr(place(c, at + 1)), s.r.get8(reg_at(c, at + 1))),
            ..s
        }.goto(at + 1 + place_len(c, at + 1))
        }),
{
    reveal(step);
}

pub proof fn ins_store_byte(c: Seq<u8>, s: Cpu)
    requires
        0 <= s.ip < c.len(),
        !s.returned,
        ({
            let at = s.ip;
            let op = c[at] as int;
            op == 0xC6
        }),
    ensures
        step(c, s) == ({
            let at = s.ip;
            let op = c[at] as int;
            let n = place_len(c, at + 1);
        Cpu { mem8: s.mem8.insert(s.addr(place(c, at + 1)), c[at + 1 + n]), ..s }.goto(
            at + 2 + n,
        )
        }),
{
    reveal(step);
}

pub proof fn ins_mul_byte(c: Seq<u8>, s: Cpu)
    requires
        0 <= s.ip < c.len(),
        !s.returned,
        ({
            let at = s.ip;
            let op = c[at] as int;
            op == 0x6B
        }),
    ensures
        step(c, s) == ({
            let at = s.ip;
            let op = c[at] as int;
            let n = place_len(c, at + 1);
        Cpu {
            r: s.r.set(
                reg_at(c, at + 1),
                wrap(signed(s.read(place(c, at + 1))) * signed8(c[at + 1 + n])),
            ),
            ..s
        }.goto(at + 2 + n)
        }),
{
    reveal(step);
}

pub proof fn ins_copy(c: Seq<u8>, s: Cpu)
    requires
        0 <= s.ip < c.len(),
        !s.returned,
        ({
            let at = s.ip;
            let op = c[at] as int;
            op == 0xF3 && c[at + 1] == 0xA4
        }),
    ensures
        step(c, s) == ({
            let at = s.ip;
            let op = c[at] as int;
            s.copied().goto(at + 2)
        }),
{
    reveal(step);
}

pub proof fn ins_div(c: Seq<u8>, s: Cpu)
    requires
        0 <= s.ip < c.len(),
        !s.returned,
        ({
            let at = s.ip;
            let op = c[at] as int;
            op == 0xF7 && reg_at(c, at + 1) == 6
        }),
    ensures
        step(c, s) == ({
            let at = s.ip;
            let op = c[at] as int;
            s.divided(s.read(place(c, at + 1))).goto(at + 1 + place_len(c, at + 1))
        }),
{
    reveal(step);
}

pub proof fn ins_add_byte(c: Seq<u8>, s: Cpu)
    requires
        0 <= s.ip < c.len(),
        !s.returned,
        ({
            let at = s.ip;
            let op = c[at] as int;
            op == 0x80 && c[at + 1] >= 192 && c[at + 1] < 196
        }),
    ensures
        step(c, s) == ({
            let at = s.ip;
            let op = c[at] as int;
            let n = c[at + 1] - 192;
        Cpu { r: s.r.set8(n, ((s.r.get8(n) + c[at + 2]) % 256) as u8), ..s }.goto(at + 3)
        }),
{
    reveal(step);
}

pub proof fn ins_loop(c: Seq<u8>, s: Cpu)
    requires
        0 <= s.ip < c.len(),
        !s.returned,
        ({
            let at = s.ip;
            let op = c[at] as int;
            op == 0xE2
        }),
    ensures
        step(c, s) == ({
            let at = s.ip;
            let op = c[at] as int;
            let left = wrap(s.r.ecx - 1);
        Cpu { r: Regs { ecx: left, ..s.r }, ..s }.goto(
            if left != 0 {
                near(c, at + 1)
            } else {
                at + 2
            },
        )
        }),
{
    reveal(step);
}

pub proof fn ins_negate(c: Seq<u8>, s: Cpu)
    requires
        0 <= s.ip < c.len(),
        !s.returned,
        ({
            let at = s.ip;
            let op = c[at] as int;
            op == 0xF7 && reg_at(c, at + 1) == 3
        }),
    ensures
        step(c, s) == ({
            let at = s.ip;
            let op = c[at] as int;
            let p = place(c, at + 1);
        s.write(p, wrap(-s.read(p))).goto(at + 1 + place_len(c, at + 1))
        }),
{
    reveal(step);
}

pub proof fn ins_compare_half(c: Seq<u8>, s: Cpu)
    requires
        0 <= s.ip < c.len(),
        !s.returned,
        ({
            let at = s.ip;
            let op = c[at] as int;
            op == 0x66 && c[at + 1] == 0x81 && reg_at(c, at + 2) == 7
        }),
    ensures
        step(c, s) == ({
            let at = s.ip;
            let op = c[at] as int;
            let n = place_len(c, at + 2);
        let x = s.mem16[s.addr(place(c, at + 2))];
        let y = code::from_le16(c.subrange(at + 2 + n, at + 4 + n));
        Cpu { f: Flags { zf: x == y, cf: x < y, less: x < y }, ..s }.goto(at + 4 + n)
        }),
{
    reveal(step);
}

pub proof fn ins_load_signed8(c: Seq<u8>, s: Cpu)
    requires
        0 <= s.ip < c.len(),
        !s.returned,
        ({
            let at = s.ip;
            let op = c[at] as int;
            op == 0x0F && c[at + 1] == 0xBE
        }),
    ensures
        step(c, s) == ({
            let at = s.ip;
            let op = c[at] as int;
            Cpu {
            r: s.r.set(
                reg_at(c, at + 2),
                wrap(signed8(s.mem8[s.addr(place(c, at + 2))])),
            ),
            ..s
        }.goto(at + 2 + place_len(c, at + 2))
        }),
{
    reveal(step);
}

pub proof fn ins_low_byte(c: Seq<u8>, s: Cpu)
    requires
        0 <= s.ip < c.len(),
        !s.returned,
        ({
            let at = s.ip;
            let op = c[at] as int;
            op == 0x0F && c[at + 1] == 0xB6 && c[at + 2] == 0xC0
        }),
    ensures
        step(c, s) == ({
            let at = s.ip;
            let op = c[at] as int;
            Cpu { r: Regs { eax: s.r.eax % 256, ..s.r }, ..s }.goto(at + 3)
        }),
{
    reveal(step);
}

pub proof fn ins_compare_eax(c: Seq<u8>, s: Cpu)
    requires
        0 <= s.ip < c.len(),
        !s.returned,
        ({
            let at = s.ip;
            let op = c[at] as int;
            op == 0x3D
        }),
    ensures
        step(c, s) == ({
            let at = s.ip;
            let op = c[at] as int;
            s.alu(7, Place::Reg(0), word_at(c, at + 1)).goto(at + 5)
        }),
{
    reveal(step);
}

pub proof fn ins_load_half(c: Seq<u8>, s: Cpu)
    requires
        0 <= s.ip < c.len(),
        !s.returned,
        ({
            let at = s.ip;
            let op = c[at] as int;
            op == 0x66 && c[at + 1] == 0x8B
        }),
    ensures
        step(c, s) == ({
            let at = s.ip;
            let op = c[at] as int;
            Cpu { r: s.r.set16(reg_at(c, at + 2), s.mem16[s.addr(place(c, at + 2))]), ..s }.goto(
            at + 2 + place_len(c, at + 2),
        )
        }),
{
    reveal(step);
}

pub proof fn ins_move_half(c: Seq<u8>, s: Cpu)
    requires
        0 <= s.ip < c.len(),
        !s.returned,
        ({
            let at = s.ip;
            let op = c[at] as int;
            op == 0x66 && c[at + 1] == 0x89 && c[at + 2] >= 192
        }),
    ensures
        step(c, s) == ({
            let at = s.ip;
            let op = c[at] as int;
            Cpu {
            r: s.r.set16(c[at + 2] as int % 8, s.r.get16(c[at + 2] as int / 8 % 8)),
            ..s
        }.goto(at + 3)
        }),
{
    reveal(step);
}

pub proof fn ins_store_half(c: Seq<u8>, s: Cpu)
    requires
        0 <= s.ip < c.len(),
        !s.returned,
        ({
            let at = s.ip;
            let op = c[at] as int;
            op == 0x66 && c[at + 1] == 0x89 && c[at + 2] < 192
        }),
    ensures
        step(c, s) == ({
            let at = s.ip;
            let op = c[at] as int;
            Cpu {
            mem16: s.mem16.insert(s.addr(place(c, at + 2)), s.r.get16(reg_at(c, at + 2))),
            ..s
        }.goto(at + 2 + place_len(c, at + 2))
        }),
{
    reveal(step);
}

pub proof fn ins_load_ax(c: Seq<u8>, s: Cpu)
    requires
        0 <= s.ip < c.len(),
        !s.returned,
        ({
            let at = s.ip;
            let op = c[at] as int;
            op == 0x66 && c[at + 1] == 0xA1
        }),
    ensures
        step(c, s) == ({
            let at = s.ip;
            let op = c[at] as int;
            Cpu { r: s.r.set16(0, s.mem16[word_at(c, at + 2)]), ..s }.goto(at + 6)
        }),
{
    reveal(step);
}

pub proof fn ins_test_ax(c: Seq<u8>, s: Cpu)
    requires
        0 <= s.ip < c.len(),
        !s.returned,
        ({
            let at = s.ip;
            let op = c[at] as int;
            op == 0x66 && c[at + 1] == 0xA9
        }),
    ensures
        step(c, s) == ({
            let at = s.ip;
            let op = c[at] as int;
            let x = (s.r.get16(0) & code::from_le16(c.subrange(at + 2, at + 4))) as int;
        Cpu { f: Flags { zf: x == 0, cf: false, less: x >= 0x8000 }, ..s }.goto(at + 4)
        }),
{
    reveal(step);
}

/// Outside of the code, and once it has returned, nothing happens.
pub proof fn ins_none(c: Seq<u8>, s: Cpu)
    requires
        s.ip < 0 || s.ip >= c.len() || s.returned,
    ensures
        step(c, s) == s,
{
    reveal(step);
}

/// The cell at an address.
pub open spec fn cell(a: u32) -> Place {
    Place::Mem { base: -1, index: -1, scale: 1, disp: a as int }
}

/// The cell at a register plus a displacement.
pub open spec fn cell_at(base: int, disp: int) -> Place {
    Place::Mem { base, index: -1, scale: 1, disp }
}

/// The cell at a base register plus an index register times a scale.
pub open spec fn indexed(base: int, index: int, scale: int) -> Place {
    Place::Mem { base, index, scale, disp: 0 }
}

/// The cell at a base register plus an index register plus a displacement.
pub open spec fn indexed_near(base: int, index: int, disp: int) -> Place {
    Place::Mem { base, index, scale: 1, disp }
}

/// A byte that names a register `r` and a cell by its address.
pub proof fn names_cell(c: Seq<u8>, at: int, r: int)
    requires
        0 <= r < 8,
        c[at] == 8 * r + 5,
    ensures
        place(c, at) == cell(word_at(c, at + 1)),
        place_len(c, at) == 5,
        reg_at(c, at) == r,
{
    reveal(place);
    reveal(place_len);
    reveal(reg_at);
}

/// A byte that names a register `r` and a register `m`.
pub proof fn names_reg(c: Seq<u8>, at: int, r: int, m: int)
    requires
        0 <= r < 8,
        0 <= m < 8,
        c[at] == 192 + 8 * r + m,
    ensures
        place(c, at) == Place::Reg(m),
        place_len(c, at) == 1,
        reg_at(c, at) == r,
{
    reveal(place);
    reveal(place_len);
    reveal(reg_at);
}

/// A byte that names a register `r` and the cell that a register `m` points at.
pub proof fn names_pointed(c: Seq<u8>, at: int, r: int, m: int)
    requires
        0 <= r < 8,
        0 <= m < 8,
        m != 4,
        m != 5,
        c[at] == 8 * r + m,
    ensures
        place(c, at) == cell_at(m, 0),
        place_len(c, at) == 1,
        reg_at(c, at) == r,
{
    reveal(place);
    reveal(place_len);
    reveal(reg_at);
}

/// Two bytes that name a register `r` and a cell a little off what a register `m` points
/// at.
pub proof fn names_near(c: Seq<u8>, at: int, r: int, m: int)
    requires
        0 <= r < 8,
        0 <= m < 8,
        m != 4,
        c[at] == 64 + 8 * r + m,
    ensures
        place(c, at) == cell_at(m, signed8(c[at + 1])),
        place_len(c, at) == 2,
        reg_at(c, at) == r,
{
    reveal(place);
    reveal(place_len);
    reveal(reg_at);
}

/// Three bytes that name a register `r` and a cell by a base and an index register and a
/// small displacement.
pub proof fn names_indexed_near(c: Seq<u8>, at: int, r: int, base: int, index: int)
    requires
        0 <= r < 8,
        0 <= base < 8,
        0 <= index < 8,
        index != 4,
        c[at] == 64 + 8 * r + 4,
        c[at + 1] == 8 * index + base,
    ensures
        place(c, at) == indexed_near(base, index, signed8(c[at + 2])),
        place_len(c, at) == 3,
        reg_at(c, at) == r,
{
    reveal(place);
    reveal(place_len);
    reveal(reg_at);
}

/// Three bytes that name a register `r` and a cell a little off the top of the stack.
pub proof fn names_on_stack(c: Seq<u8>, at: int, r: int)
    requires
        0 <= r < 8,
        c[at] == 64 + 8 * r + 4,
        c[at + 1] == 0x24,
    ensures
        place(c, at) == cell_at(4, signed8(c[at + 2])),
        place_len(c, at) == 3,
        reg_at(c, at) == r,
{
    reveal(place);
    reveal(place_len);
    reveal(reg_at);
}

/// Bytes that name a register `r` and a cell far off what a register `m` points at.
pub proof fn names_far(c: Seq<u8>, at: int, r: int, m: int)
    requires
        0 <= r < 8,
        0 <= m < 8,
        c[at] == 128 + 8 * r + m,
    ensures
        place(c, at) == cell_at(m, word_at(c, at + 1) as int),
        place_len(c, at) == 5,
        reg_at(c, at) == r,
{
    reveal(place);
    reveal(place_len);
    reveal(reg_at);
}

/// Two bytes that name a register `r` and a cell by a base and an index register, the
/// index times 1, 2, 4 or 8.
pub proof fn names_indexed(c: Seq<u8>, at: int, r: int, base: int, index: int, shift: int)
    requires
        0 <= r < 8,
        0 <= base < 8,
        0 <= index < 8,
        index != 4,
        0 <= shift < 4,
        c[at] == 8 * r + 4,
        c[at + 1] == 64 * shift + 8 * index + base,
    ensures
        place(c, at) == indexed(
            base,
            index,
            if shift == 0 {
                1
            } else if shift == 1 {
                2
            } else if shift == 2 {
                4
            } else {
                8
            },
        ),
        place_len(c, at) == 2,
        reg_at(c, at) == r,
{
    reveal(place);
    reveal(place_len);
    reveal(reg_at);
}

/// The address of a cell that is named by it.
pub broadcast proof fn cell_addr(s: Cpu, a: u32)
    ensures
        #[trigger] s.addr(cell(a)) == a,
{
    reveal(Cpu::addr);
    reveal(wrap);
}

/// The address of a cell off a register.
pub broadcast proof fn cell_at_addr(s: Cpu, base: int, disp: int)
    requires
        0 <= base < 8,
    ensures
        #[trigger] s.addr(cell_at(base, disp)) == wrap(s.r.get(base) + disp),
{
    reveal(Cpu::addr);
}

/// The address of a cell by base and index.
pub broadcast proof fn indexed_addr(s: Cpu, base: int, index: int, scale: int)
    requires
        0 <= base < 8,
        0 <= index < 8,
    ensures
        #[trigger] s.addr(indexed(base, index, scale)) == wrap(
            s.r.get(base) + s.r.get(index) * scale,
        ),
{
    reveal(Cpu::addr);
}

/// The address of a cell by base, index and displacement.
pub broadcast proof fn indexed_near_addr(s: Cpu, base: int, index: int, disp: int)
    requires
        0 <= base < 8,
        0 <= index < 8,
    ensures
        #[trigger] s.addr(indexed_near(base, index, disp)) == wrap(
            s.r.get(base) + s.r.get(index) + disp,
        ),
{
    reveal(Cpu::addr);
}

/// A number that fits is kept.
pub broadcast proof fn wrap_fits(x: int)
    ensures
        0 <= x < 0x1_0000_0000 ==> #[trigger] wrap(x) == x,
        0 <= wrap(x) < 0x1_0000_0000,
{
    reveal(wrap);
}

/// Numbers can be kept to 32 bits before they are added or after.
pub proof fn wraps_add(x: int, y: int)
    ensures
        wrap(wrap(x) + y) == wrap(x + y),
{
    reveal(wrap);
}

/// A number above 32 bits starts again at 0.
pub proof fn wraps_around(x: int)
    ensures
        wrap(x) == wrap(x - 0x1_0000_0000),
{
    reveal(wrap);
}

/// A 32-bit distance leads to its target.
pub proof fn rel_leads(next: int, target: u32)
    ensures
        wrap(next + signed(code::rel32(next, target as int))) == target,
{
    reveal(wrap);
}

/// Copied bytes stand at their new place, and bytes before it stay.
pub proof fn bytes_are_copied(s: Cpu, k: int, before: u32)
    requires
        s.r.esi + s.r.ecx <= u32::MAX,
        s.r.edi + s.r.ecx <= u32::MAX,
        0 <= k < s.r.ecx,
        before < s.r.edi,
    ensures
        ({
            let e = s.copied();
            &&& e.mem8[(s.r.edi + k) as u32] == s.mem8[(s.r.esi + k) as u32]
            &&& e.mem8[before] == s.mem8[before]
            &&& e == (Cpu {
                mem8: e.mem8,
                r: Regs {
                    ecx: 0,
                    esi: (s.r.esi + s.r.ecx) as u32,
                    edi: (s.r.edi + s.r.ecx) as u32,
                    ..s.r
                },
                ..s
            })
        }),
{
    reveal(Cpu::copied);
    reveal(wrap);
    let m = 0x1_0000_0000int;
    assert(k % m == k);
    assert((before - s.r.edi) % m == before - s.r.edi + m);
}

/// A byte that was put into a register is there.
pub proof fn low_bytes_are_kept(r: Regs, n: int, x: u8)
    requires
        0 <= n < 4,
    ensures
        r.set8(n, x).get8(n) == x,
        r.set8(n, x).esp == r.esp && r.set8(n, x).ebp == r.ebp,
        n == 0 ==> r.set8(n, x) == (Regs { eax: r.set8(n, x).eax, ..r }),
        n == 1 ==> r.set8(n, x) == (Regs { ecx: r.set8(n, x).ecx, ..r }),
{
}

/// A number that fits into one register is divided as ever.
pub proof fn small_numbers_are_divided(s: Cpu, by: u32)
    requires
        s.r.edx == 0,
        by > 0,
    ensures
        s.divided(by) == (Cpu {
            r: Regs { eax: s.r.eax / by, edx: s.r.eax % by, ..s.r },
            ..s
        }),
{
    reveal(Cpu::divided);
    reveal(wrap);
}

/// A small number times a byte without sign.
pub proof fn small_products(c: Seq<u8>, at: int, k: u32, b: int)
    requires
        c[at] == b,
        0 <= b < 128,
        k < 0x1000,
    ensures
        wrap(signed(k) * signed8(c[at])) == k * b,
{
    reveal(wrap);
    let x = signed(k);
    let y = signed8(c[at]);
    assert(0 <= x * y && x * y < 0x1000 * 128 && x * y == k * b) by (nonlinear_arith)
        requires
            x == k,
            y == b,
            0 <= k < 0x1000,
            0 <= b < 128,
    ;
}

pub broadcast group group_cells {
    cell_addr,
    cell_at_addr,
    indexed_addr,
    indexed_near_addr,
    wrap_fits,
    flags_survive,
}

/// Several instructions.
pub open spec fn run(c: Seq<u8>, s: Cpu, n: nat) -> Cpu
    decreases n,
{
    if n == 0 {
        s
    } else {
        run(c, step(c, s), (n - 1) as nat)
    }
}

/// Instructions can be run in two goes.
pub proof fn runs_follow_each_other(c: Seq<u8>, s: Cpu, a: nat, b: nat)
    ensures
        run(c, s, a + b) == run(c, run(c, s, a), b),
    decreases a,
{
    if a > 0 {
        runs_follow_each_other(c, step(c, s), (a - 1) as nat, b);
    }
}

/// One more instruction.
pub proof fn one_more(c: Seq<u8>, s: Cpu, n: nat)
    ensures
        run(c, s, n + 1) == step(c, run(c, s, n)),
{
    runs_follow_each_other(c, s, n, 1);
    assert(run(c, run(c, s, n), 1) == step(c, run(c, s, n))) by {
        reveal_with_fuel(run, 2);
    }
}

/// Whether a listing starts with these bytes.
pub open spec fn starts(c: Seq<u8>, head: Seq<u8>) -> bool {
    head.len() <= c.len() && c.take(head.len() as int) == head
}

/// What a piece that was put into a listing leaves there: its bytes, behind what was there
/// before.
pub proof fn piece(c: Seq<u8>, head: Seq<u8>, b: Seq<u8>)
    requires
        starts(c, code::put(head, b)),
    ensures
        starts(c, head),
        head.len() + b.len() <= c.len(),
        forall|k: int|
            head.len() <= k < head.len() + b.len() ==> #[trigger] c[k] == b[k - head.len()],
        c.subrange(head.len() as int, (head.len() + b.len()) as int) == b,
{
    reveal(code::put);
    let all = head + b;
    assert(c.take(head.len() as int) =~= all.take(head.len() as int));
    assert(all.take(head.len() as int) =~= head);
    assert forall|k: int| head.len() <= k < head.len() + b.len() implies #[trigger] c[k] == b[k
        - head.len()] by {
        assert(c.take(all.len() as int)[k] == all[k]);
    }
    assert(c.subrange(head.len() as int, (head.len() + b.len()) as int) =~= b);
}

/// What a listing that was put into another leaves there: its bytes and operands.
pub proof fn piece_inside(c: Seq<u8>, head: Seq<u8>, b: Seq<u8>)
    requires
        starts(c, code::put(head, b)),
    ensures
        starts(c, head),
        head.len() + b.len() <= c.len(),
        forall|k: int|
            head.len() <= k < head.len() + b.len() ==> #[trigger] c[k] == b[k - head.len()],
        forall|k: int|
            head.len() <= k && k + 4 <= head.len() + b.len() ==> #[trigger] word_at(c, k)
                == word_at(b, k - head.len()),
{
    piece(c, head, b);
    assert forall|k: int|
        head.len() <= k && k + 4 <= head.len() + b.len() implies #[trigger] word_at(c, k)
        == word_at(b, k - head.len()) by {
        assert(c.subrange(k, k + 4) =~= b.subrange(k - head.len(), k - head.len() + 4));
    }
}

/// What a 32-bit operand leaves in a listing.
pub proof fn piece32(c: Seq<u8>, head: Seq<u8>, x: u32)
    requires
        starts(c, code::put32(head, x)),
    ensures
        starts(c, head),
        head.len() + 4 <= c.len(),
        word_at(c, head.len() as int) == x,
{
    code::le32_round_trip(x);
    piece(c, head, code::le32(x));
}

/// What a conditional branch leaves in a listing.
pub proof fn piece_jcc(c: Seq<u8>, head: Seq<u8>, cc: u8, target: int)
    requires
        starts(c, code::jcc(head, cc, target)),
        -0x7000_0000 <= target - head.len() <= 0x7000_0000,
    ensures
        starts(c, head),
        head.len() + 6 <= c.len(),
        c[head.len() as int] == 0x0F,
        c[head.len() as int + 1] == cc,
        far(c, head.len() as int + 2) == target,
{
    let h = code::put(head, [0x0Fu8, cc]@);
    broadcast use crate::code::group_code_len;

    piece32(c, h, code::rel32(head.len() as int + 6, target));
    piece(c, head, [0x0Fu8, cc]@);
}

/// What a call inside a listing leaves in it.
pub proof fn piece_call(c: Seq<u8>, head: Seq<u8>, target: int)
    requires
        starts(c, code::call(head, target)),
        -0x7000_0000 <= target - head.len() <= 0x7000_0000,
    ensures
        starts(c, head),
        head.len() + 5 <= c.len(),
        c[head.len() as int] == 0xE8,
        far(c, head.len() as int + 1) == target,
{
    let h = code::put(head, [0xE8u8]@);
    broadcast use crate::code::group_code_len;

    piece32(c, h, code::rel32(head.len() as int + 5, target));
    piece(c, head, [0xE8u8]@);
}

/// What a short branch leaves in a listing.
pub proof fn piece_jump8(c: Seq<u8>, head: Seq<u8>, op: u8, target: int)
    requires
        starts(c, code::jump8(head, op, target)),
        -0x7E <= target - (head.len() + 2) <= 0x7E,
    ensures
        starts(c, head),
        head.len() + 2 <= c.len(),
        c[head.len() as int] == op,
        near(c, head.len() as int + 1) == target,
{
    piece(c, head, [op, code::rel8(head.len() as int + 2, target)]@);
}

/// What a jump leaves in a listing.
pub proof fn piece_jmp(c: Seq<u8>, head: Seq<u8>, target: int)
    requires
        starts(c, code::jmp(head, target)),
        -0x7000_0000 <= target - head.len() <= 0x7000_0000,
    ensures
        starts(c, head),
        head.len() + 5 <= c.len(),
        c[head.len() as int] == 0xE9,
        far(c, head.len() as int + 1) == target,
{
    let h = code::put(head, [0xE9u8]@);
    broadcast use crate::code::group_code_len;

    piece32(c, h, code::rel32(head.len() as int + 5, target));
    piece(c, head, [0xE9u8]@);
}

} // verus!
