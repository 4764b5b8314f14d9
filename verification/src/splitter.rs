use vstd::prelude::*;

verus! {

/// Splits a byte string into arguments the way a shell-like launcher does:
/// whitespace separates arguments; single and double quotes group; a
/// backslash escapes, when escaping is enabled.
pub struct SplitArgs {
    pub args: Vec<u8>,
    pub pos: usize,
    pub allow_escape: bool,
}

/// The tokenizer's mode while collecting one argument.
pub enum SplitState {
    Normal,
    SingleQ,
    DoubleQ,
    Escape,
    DQEscape,
}

pub open spec fn is_ws(b: u8) -> bool {
    b == 32 || b == 9 || b == 10 || b == 13
}

/// First position at or after `pos` holding a non-whitespace byte.
pub open spec fn spec_skip_ws(bytes: Seq<u8>, pos: int) -> int
    decreases bytes.len() - pos,
{
    if pos < 0 || pos >= bytes.len() {
        bytes.len() as int
    } else if is_ws(bytes[pos]) {
        spec_skip_ws(bytes, pos + 1)
    } else {
        pos
    }
}

/// Collect one argument from `pos` in mode `st` with `acc` gathered so far:
/// the bytes of the argument and the position after it. A pending escape at
/// the end of input flushes its backslash.
pub open spec fn spec_collect(
    bytes: Seq<u8>,
    pos: int,
    st: SplitState,
    acc: Seq<u8>,
    allow_escape: bool,
) -> (Seq<u8>, int)
    decreases bytes.len() - pos,
{
    if pos < 0 || pos >= bytes.len() {
        (
            match st {
                SplitState::Escape => acc.push(92),
                SplitState::DQEscape => acc.push(92),
                _ => acc,
            },
            pos,
        )
    } else {
        let b = bytes[pos];
        match st {
            SplitState::Normal => {
                if b == 32 || b == 9 || b == 10 {
                    (acc, pos + 1)
                } else if b == 39 {
                    spec_collect(bytes, pos + 1, SplitState::SingleQ, acc, allow_escape)
                } else if b == 34 {
                    spec_collect(bytes, pos + 1, SplitState::DoubleQ, acc, allow_escape)
                } else if b == 92 && allow_escape {
                    spec_collect(bytes, pos + 1, SplitState::Escape, acc, allow_escape)
                } else {
                    spec_collect(bytes, pos + 1, SplitState::Normal, acc.push(b), allow_escape)
                }
            },
            SplitState::Escape => spec_collect(
                bytes,
                pos + 1,
                SplitState::Normal,
                acc.push(b),
                allow_escape,
            ),
            SplitState::SingleQ => {
                if b == 39 {
                    spec_collect(bytes, pos + 1, SplitState::Normal, acc, allow_escape)
                } else {
                    spec_collect(bytes, pos + 1, SplitState::SingleQ, acc.push(b), allow_escape)
                }
            },
            SplitState::DoubleQ => {
                if b == 34 {
                    spec_collect(bytes, pos + 1, SplitState::Normal, acc, allow_escape)
                } else if b == 92 && allow_escape {
                    spec_collect(bytes, pos + 1, SplitState::DQEscape, acc, allow_escape)
                } else {
                    spec_collect(bytes, pos + 1, SplitState::DoubleQ, acc.push(b), allow_escape)
                }
            },
            SplitState::DQEscape => {
                if b == 10 || b == 92 || b == 34 {
                    spec_collect(bytes, pos + 1, SplitState::DoubleQ, acc.push(b), allow_escape)
                } else {
                    spec_collect(
                        bytes,
                        pos + 1,
                        SplitState::DoubleQ,
                        acc.push(92).push(b),
                        allow_escape,
                    )
                }
            },
        }
    }
}

/// A trailing carriage return is stripped, so `\r\n` line ends do not leak
/// into the last argument of a line.
pub open spec fn spec_strip_cr(a: Seq<u8>) -> Seq<u8> {
    if a.len() > 0 && a.last() == 13 {
        a.drop_last()
    } else {
        a
    }
}

/// What one call of `next` yields from `pos`: the argument and the position
/// after it, or nothing when only whitespace remains.
pub open spec fn spec_next_arg(bytes: Seq<u8>, pos: int, allow_escape: bool) -> Option<
    (Seq<u8>, int),
> {
    let p = spec_skip_ws(bytes, pos);
    if p >= bytes.len() {
        None
    } else {
        let c = spec_collect(bytes, p, SplitState::Normal, Seq::empty(), allow_escape);
        Some((spec_strip_cr(c.0), c.1))
    }
}

impl SplitArgs {
    pub open spec fn wf(&self) -> bool {
        self.pos <= self.args@.len()
    }

    /// A splitter over `args`, positioned at the start.
    pub fn new(args: Vec<u8>, allow_escape: bool) -> (r: SplitArgs)
        ensures
            r.args@ == args@,
            r.pos == 0,
            r.allow_escape == allow_escape,
            r.wf(),
    {
        SplitArgs { args, pos: 0, allow_escape }
    }

    /// The next argument, or nothing when the input is exhausted.
    pub fn next(&mut self) -> (r: Option<Vec<u8>>)
        requires
            old(self).wf(),
        ensures
            final(self).wf(),
            final(self).args@ == old(self).args@,
            final(self).allow_escape == old(self).allow_escape,
            match spec_next_arg(old(self).args@, old(self).pos as int, old(self).allow_escape) {
                Option::Some(ap) => r matches Some(v) && v@ == ap.0 && final(self).pos == ap.1,
                Option::None => r is None && final(self).pos == old(self).args@.len(),
            },
    {
        let ghost bytes = self.args@;
        let ghost esc = self.allow_escape;
        // Skip the whitespace before the next argument.
        loop
            invariant
                self.wf(),
                self.args@ == bytes,
                self.allow_escape == esc,
                spec_skip_ws(bytes, old(self).pos as int) == spec_skip_ws(bytes, self.pos as int),
            ensures
                self.wf(),
                self.args@ == bytes,
                self.allow_escape == esc,
                self.pos as int == spec_skip_ws(bytes, old(self).pos as int),
            decreases self.args@.len() - self.pos,
        {
            if self.pos >= self.args.len() {
                break;
            }
            let b = self.args[self.pos];
            if !(b == 32 || b == 9 || b == 10 || b == 13) {
                break;
            }
            self.pos = self.pos + 1;
        }
        if self.pos == self.args.len() {
            return None;
        }
        let ghost p0 = self.pos as int;
        proof {
            assert(spec_skip_ws(bytes, self.pos as int) == self.pos as int);
        }
        let mut state = SplitState::Normal;
        let mut arg: Vec<u8> = Vec::new();
        proof {
            assert(arg@ =~= Seq::<u8>::empty());
        }
        loop
            invariant_except_break
                spec_collect(bytes, p0, SplitState::Normal, Seq::empty(), esc) == spec_collect(
                    bytes,
                    self.pos as int,
                    state,
                    arg@,
                    esc,
                ),
            invariant
                self.pos <= self.args@.len(),
                self.args@ == bytes,
                self.allow_escape == esc,
            ensures
                self.pos <= self.args@.len(),
                self.args@ == bytes,
                self.allow_escape == esc,
                (arg@, self.pos as int) == spec_collect(
                    bytes,
                    p0,
                    SplitState::Normal,
                    Seq::empty(),
                    esc,
                ),
            decreases self.args@.len() - self.pos,
        {
            if self.pos >= self.args.len() {
                let ghost flushed = spec_collect(bytes, self.pos as int, state, arg@, esc);
                match state {
                    SplitState::Escape => {
                        arg.push(92);
                    },
                    SplitState::DQEscape => {
                        arg.push(92);
                    },
                    _ => {},
                }
                proof {
                    assert((arg@, self.pos as int) == flushed);
                }
                break;
            }
            let ghost pre_pos = self.pos as int;
            let b = self.args[self.pos];
            self.pos = self.pos + 1;
            match state {
                SplitState::Normal => {
                    if b == 32 || b == 9 || b == 10 {
                        proof {
                            assert(spec_collect(bytes, pre_pos, state, arg@, esc) == (
                                arg@,
                                self.pos as int,
                            ));
                        }
                        break;
                    } else if b == 39 {
                        state = SplitState::SingleQ;
                    } else if b == 34 {
                        state = SplitState::DoubleQ;
                    } else if b == 92 && self.allow_escape {
                        state = SplitState::Escape;
                    } else {
                        arg.push(b);
                    }
                },
                SplitState::Escape => {
                    arg.push(b);
                    state = SplitState::Normal;
                },
                SplitState::SingleQ => {
                    if b == 39 {
                        state = SplitState::Normal;
                    } else {
                        arg.push(b);
                    }
                },
                SplitState::DoubleQ => {
                    if b == 34 {
                        state = SplitState::Normal;
                    } else if b == 92 && self.allow_escape {
                        state = SplitState::DQEscape;
                    } else {
                        arg.push(b);
                    }
                },
                SplitState::DQEscape => {
                    if b == 10 || b == 92 || b == 34 {
                        arg.push(b);
                        state = SplitState::DoubleQ;
                    } else {
                        arg.push(92);
                        arg.push(b);
                        state = SplitState::DoubleQ;
                    }
                },
            }
        }
        // Strip a trailing carriage return, for `\r\n` line ends.
        if arg.len() > 0 && arg[arg.len() - 1] == 13 {
            let _ = arg.pop();
            proof {
                assert(arg@ =~= spec_strip_cr(spec_collect(
                    bytes,
                    p0,
                    SplitState::Normal,
                    Seq::empty(),
                    esc,
                ).0));
            }
        }
        Some(arg)
    }
}

} // verus!
