//! The network address as the rest of the library sees it: four decimal
//! octets and a port, together with its canonical text form
//! `a.b.c.d:port` as typed by the operator and shown beside every
//! received message.

use vstd::prelude::*;

verus! {

/// A remote or local endpoint: an IPv4 address together with a TCP port.
#[derive(Clone, Copy, PartialEq, Eq, Structural, Debug)]
pub struct Addr {
    pub a: u8,
    pub b: u8,
    pub c: u8,
    pub d: u8,
    pub port: u16,
}

/// The character for one decimal digit.
pub open spec fn spec_digit(n: nat) -> char
    recommends
        n < 10,
{
    if n == 0 {
        '0'
    } else if n == 1 {
        '1'
    } else if n == 2 {
        '2'
    } else if n == 3 {
        '3'
    } else if n == 4 {
        '4'
    } else if n == 5 {
        '5'
    } else if n == 6 {
        '6'
    } else if n == 7 {
        '7'
    } else if n == 8 {
        '8'
    } else {
        '9'
    }
}

/// The canonical decimal rendering of a number: most significant digit
/// first, no leading zeros (the number zero is the single digit `0`).
pub open spec fn spec_dec(n: nat) -> Seq<char>
    decreases n,
{
    if n < 10 {
        seq![spec_digit(n)]
    } else {
        spec_dec(n / 10).push(spec_digit(n % 10))
    }
}

impl Addr {
    /// The canonical text of this endpoint, `a.b.c.d:port`.
    pub open spec fn spec_str(self) -> Seq<char> {
        spec_dec(self.a as nat) + seq!['.'] + spec_dec(self.b as nat) + seq!['.'] + spec_dec(
            self.c as nat,
        ) + seq!['.'] + spec_dec(self.d as nat) + seq![':'] + spec_dec(self.port as nat)
    }

    /// Renders this endpoint in its canonical text form.
    pub fn render(&self) -> (s: String)
        ensures
            s@ == self.spec_str(),
    {
        let mut s = String::new();
        push_dec(&mut s, self.a as u16);
        append_dot(&mut s);
        push_dec(&mut s, self.b as u16);
        append_dot(&mut s);
        push_dec(&mut s, self.c as u16);
        append_dot(&mut s);
        push_dec(&mut s, self.d as u16);
        append_colon(&mut s);
        push_dec(&mut s, self.port);
        proof {
            assert(s@ =~= self.spec_str());
        }
        s
    }
}

/// The one-character string for a decimal digit.
fn digit_str(d: u8) -> (s: &'static str)
    requires
        d < 10,
    ensures
        s@ =~= seq![spec_digit(d as nat)],
{
    proof {
        reveal_strlit("0");
        reveal_strlit("1");
        reveal_strlit("2");
        reveal_strlit("3");
        reveal_strlit("4");
        reveal_strlit("5");
        reveal_strlit("6");
        reveal_strlit("7");
        reveal_strlit("8");
        reveal_strlit("9");
    }
    if d == 0 {
        "0"
    } else if d == 1 {
        "1"
    } else if d == 2 {
        "2"
    } else if d == 3 {
        "3"
    } else if d == 4 {
        "4"
    } else if d == 5 {
        "5"
    } else if d == 6 {
        "6"
    } else if d == 7 {
        "7"
    } else if d == 8 {
        "8"
    } else {
        "9"
    }
}

/// Appends the canonical decimal rendering of `n` to `out`.
fn push_dec(out: &mut String, n: u16)
    ensures
        final(out)@ == old(out)@ + spec_dec(n as nat),
    decreases n,
{
    if n < 10 {
        out.append(digit_str(n as u8));
        proof {
            assert(out@ =~= old(out)@ + spec_dec(n as nat));
        }
    } else {
        push_dec(out, n / 10);
        out.append(digit_str((n % 10) as u8));
        proof {
            assert(out@ =~= old(out)@ + spec_dec(n as nat));
        }
    }
}

/// Appends a literal `.` to `out`.
fn append_dot(out: &mut String)
    ensures
        final(out)@ == old(out)@ + seq!['.'],
{
    proof {
        reveal_strlit(".");
    }
    out.append(".");
    proof {
        assert(out@ =~= old(out)@ + seq!['.']);
    }
}

/// Appends a literal `:` to `out`.
fn append_colon(out: &mut String)
    ensures
        final(out)@ == old(out)@ + seq![':'],
{
    proof {
        reveal_strlit(":");
    }
    out.append(":");
    proof {
        assert(out@ =~= old(out)@ + seq![':']);
    }
}

/// Whether `c` is a decimal digit.
pub open spec fn is_digit_char(c: char) -> bool {
    48 <= c as u32 <= 57
}

/// The value of a decimal digit character.
pub open spec fn digit_char_val(c: char) -> nat
    recommends
        is_digit_char(c),
{
    (c as u32 - 48) as nat
}

/// The scanner's position while reading an endpoint text left to right:
/// `completed` holds the values of the finished octet groups, and in
/// `InGroup` the current group has the value `val` so far.  A group may
/// not start with a superfluous zero, an octet may not exceed 255, and
/// the port may not exceed 65535; any violation, or any character other
/// than a digit, a separating `.` or the single `:`, moves the scan to
/// `Failed` for good.
pub enum ScanState {
    Start { completed: Seq<nat> },
    InGroup { completed: Seq<nat>, val: nat },
    Failed,
}

/// The largest value the group being read may reach: 255 for the four
/// octets, 65535 for the port.
pub open spec fn group_limit(completed: Seq<nat>) -> nat {
    if completed.len() == 4 {
        65535
    } else {
        255
    }
}

/// One scanner transition on the character `c`.
pub open spec fn scan_step(st: ScanState, c: char) -> ScanState {
    match st {
        ScanState::Start { completed } => {
            if is_digit_char(c) {
                ScanState::InGroup { completed, val: digit_char_val(c) }
            } else {
                ScanState::Failed
            }
        },
        ScanState::InGroup { completed, val } => {
            if is_digit_char(c) {
                if val == 0 || val * 10 + digit_char_val(c) > group_limit(completed) {
                    ScanState::Failed
                } else {
                    ScanState::InGroup { completed, val: val * 10 + digit_char_val(c) }
                }
            } else if c == '.' && completed.len() < 3 {
                ScanState::Start { completed: completed.push(val) }
            } else if c == ':' && completed.len() == 3 {
                ScanState::Start { completed: completed.push(val) }
            } else {
                ScanState::Failed
            }
        },
        ScanState::Failed => ScanState::Failed,
    }
}

/// The scanner run over `s`, starting from `st`.
pub open spec fn scan_run_from(st: ScanState, s: Seq<char>) -> ScanState
    decreases s.len(),
{
    if s.len() == 0 {
        st
    } else {
        scan_step(scan_run_from(st, s.drop_last()), s.last())
    }
}

/// The scanner run over all of `s`, from the initial state.
pub open spec fn scan_run(s: Seq<char>) -> ScanState {
    scan_run_from(ScanState::Start { completed: Seq::empty() }, s)
}

/// What parsing an operator-typed endpoint text yields: the endpoint,
/// if the whole text is of the canonical form `a.b.c.d:port`, and
/// nothing otherwise.
pub open spec fn spec_parse_addr(s: Seq<char>) -> Option<Addr> {
    match scan_run(s) {
        ScanState::InGroup { completed, val } => {
            if completed.len() == 4 {
                Some(
                    Addr {
                        a: completed[0] as u8,
                        b: completed[1] as u8,
                        c: completed[2] as u8,
                        d: completed[3] as u8,
                        port: val as u16,
                    },
                )
            } else {
                None
            }
        },
        _ => None,
    }
}

/// Extending the scanned text by one character makes one transition.
proof fn lemma_scan_push(st: ScanState, t: Seq<char>, c: char)
    ensures
        scan_run_from(st, t.push(c)) == scan_step(scan_run_from(st, t), c),
{
    assert(t.push(c).drop_last() =~= t);
    assert(t.push(c).last() == c);
}

/// Running the scanner over a concatenation runs it over each part in
/// turn.
proof fn lemma_scan_run_from_concat(st: ScanState, s1: Seq<char>, s2: Seq<char>)
    ensures
        scan_run_from(st, s1 + s2) == scan_run_from(scan_run_from(st, s1), s2),
    decreases s2.len(),
{
    if s2.len() == 0 {
        assert(s1 + s2 =~= s1);
    } else {
        lemma_scan_run_from_concat(st, s1, s2.drop_last());
        assert((s1 + s2).drop_last() =~= s1 + s2.drop_last());
        assert((s1 + s2).last() == s2.last());
    }
}

/// The digit characters of the renderer scan back to their values.
proof fn lemma_spec_digit_val(m: nat)
    requires
        m < 10,
    ensures
        is_digit_char(spec_digit(m)),
        digit_char_val(spec_digit(m)) == m,
{
}

/// Scanning the canonical rendering of `n` from the head of a group
/// reads the whole group and yields `n`.
proof fn lemma_scan_dec(completed: Seq<nat>, n: nat)
    requires
        n <= group_limit(completed),
    ensures
        scan_run_from(ScanState::Start { completed }, spec_dec(n)) == (ScanState::InGroup {
            completed,
            val: n,
        }),
    decreases n,
{
    if n < 10 {
        lemma_spec_digit_val(n);
        lemma_scan_single(ScanState::Start { completed }, spec_digit(n));
        assert(spec_dec(n) == seq![spec_digit(n)]);
        assert(scan_step(ScanState::Start { completed }, spec_digit(n)) == (ScanState::InGroup {
            completed,
            val: n,
        }));
    } else {
        assert(n / 10 <= n && n / 10 >= 1 && n % 10 < 10) by (nonlinear_arith)
            requires
                n >= 10,
        ;
        lemma_scan_dec(completed, n / 10);
        lemma_spec_digit_val(n % 10);
        lemma_scan_push(ScanState::Start { completed }, spec_dec(n / 10), spec_digit(n % 10));
        assert((n / 10) * 10 + n % 10 == n) by (nonlinear_arith);
        assert(spec_dec(n) == spec_dec(n / 10).push(spec_digit(n % 10)));
        assert(scan_run_from(ScanState::Start { completed }, spec_dec(n)) == scan_step(
            ScanState::InGroup { completed, val: (n / 10) as nat },
            spec_digit(n % 10),
        ));
        assert(scan_step(
            ScanState::InGroup { completed, val: (n / 10) as nat },
            spec_digit(n % 10),
        ) == (ScanState::InGroup { completed, val: n }));
    }
}

/// Scanning a single character makes a single transition.
proof fn lemma_scan_single(st: ScanState, c: char)
    ensures
        scan_run_from(st, seq![c]) == scan_step(st, c),
{
    assert(scan_run_from(st, Seq::<char>::empty()) == st);
    assert(seq![c].drop_last() =~= Seq::<char>::empty());
    assert(seq![c].last() == c);
}

/// The round trip of the endpoint text: parsing the canonical
/// rendering of any endpoint yields that endpoint back.
pub proof fn lemma_render_parse_round_trip(a: Addr)
    ensures
        spec_parse_addr(a.spec_str()) == Some(a),
{
    let st0 = ScanState::Start { completed: Seq::<nat>::empty() };
    let da = spec_dec(a.a as nat);
    let db = spec_dec(a.b as nat);
    let dc = spec_dec(a.c as nat);
    let dd = spec_dec(a.d as nat);
    let dp = spec_dec(a.port as nat);
    let dot = seq!['.'];
    let colon = seq![':'];
    let c0 = Seq::<nat>::empty();
    let c1 = c0.push(a.a as nat);
    let c2 = c1.push(a.b as nat);
    let c3 = c2.push(a.c as nat);
    let c4 = c3.push(a.d as nat);

    assert('.' as u32 == 46);
    assert(':' as u32 == 58);
    lemma_scan_single(ScanState::InGroup { completed: c0, val: a.a as nat }, '.');
    lemma_scan_single(ScanState::InGroup { completed: c1, val: a.b as nat }, '.');
    lemma_scan_single(ScanState::InGroup { completed: c2, val: a.c as nat }, '.');
    lemma_scan_single(ScanState::InGroup { completed: c3, val: a.d as nat }, ':');

    lemma_scan_dec(c0, a.a as nat);
    lemma_scan_run_from_concat(st0, da, dot);
    assert(scan_run_from(st0, da + dot) == ScanState::Start { completed: c1 });

    lemma_scan_run_from_concat(st0, da + dot, db);
    lemma_scan_dec(c1, a.b as nat);
    lemma_scan_run_from_concat(st0, da + dot + db, dot);
    assert(scan_run_from(st0, da + dot + db + dot) == ScanState::Start { completed: c2 });

    lemma_scan_run_from_concat(st0, da + dot + db + dot, dc);
    lemma_scan_dec(c2, a.c as nat);
    lemma_scan_run_from_concat(st0, da + dot + db + dot + dc, dot);
    assert(scan_run_from(st0, da + dot + db + dot + dc + dot) == ScanState::Start {
        completed: c3,
    });

    lemma_scan_run_from_concat(st0, da + dot + db + dot + dc + dot, dd);
    lemma_scan_dec(c3, a.d as nat);
    lemma_scan_run_from_concat(st0, da + dot + db + dot + dc + dot + dd, colon);
    assert(scan_run_from(st0, da + dot + db + dot + dc + dot + dd + colon) == ScanState::Start {
        completed: c4,
    });

    lemma_scan_run_from_concat(st0, da + dot + db + dot + dc + dot + dd + colon, dp);
    lemma_scan_dec(c4, a.port as nat);
    assert(scan_run(a.spec_str()) == ScanState::InGroup { completed: c4, val: a.port as nat });
}

/// A digit character is the rendering of its value.
proof fn lemma_digit_char_id(c: char)
    requires
        is_digit_char(c),
    ensures
        spec_digit(digit_char_val(c)) == c,
{
    let u = c as u32;
    vstd::utf8::char_u32_cast(c, u);
    if u == 48 {
        vstd::utf8::char_u32_cast('0', '0' as u32);
    } else if u == 49 {
        vstd::utf8::char_u32_cast('1', '1' as u32);
    } else if u == 50 {
        vstd::utf8::char_u32_cast('2', '2' as u32);
    } else if u == 51 {
        vstd::utf8::char_u32_cast('3', '3' as u32);
    } else if u == 52 {
        vstd::utf8::char_u32_cast('4', '4' as u32);
    } else if u == 53 {
        vstd::utf8::char_u32_cast('5', '5' as u32);
    } else if u == 54 {
        vstd::utf8::char_u32_cast('6', '6' as u32);
    } else if u == 55 {
        vstd::utf8::char_u32_cast('7', '7' as u32);
    } else if u == 56 {
        vstd::utf8::char_u32_cast('8', '8' as u32);
    } else {
        vstd::utf8::char_u32_cast('9', '9' as u32);
    }
}

/// The text that leads the scanner to the finished groups `completed`:
/// each group's canonical rendering, each followed by its separator —
/// a dot after each of the first three octets, the colon after the
/// fourth.
pub open spec fn groups_text(completed: Seq<nat>) -> Seq<char>
    decreases completed.len(),
{
    if completed.len() == 0 {
        Seq::<char>::empty()
    } else {
        groups_text(completed.drop_last()) + spec_dec(completed.last()) + seq![
            if completed.len() <= 3 {
                '.'
            } else {
                ':'
            },
        ]
    }
}

/// The finished groups are in range: at most four, each an octet.
pub open spec fn scan_bounds(completed: Seq<nat>) -> bool {
    &&& completed.len() <= 4
    &&& forall|i: int| 0 <= i < completed.len() ==> #[trigger] completed[i] <= 255
}

/// What an unfailed scan has read so far: exactly the canonical text
/// of its finished groups, and of the group it is inside.
proof fn lemma_scan_sound(s: Seq<char>)
    ensures
        scan_run(s) matches ScanState::Start { completed } ==> s == groups_text(completed)
            && scan_bounds(completed),
        scan_run(s) matches ScanState::InGroup { completed, val } ==> s == groups_text(completed)
            + spec_dec(val) && val <= group_limit(completed) && scan_bounds(completed),
    decreases s.len(),
{
    if s.len() == 0 {
        assert(scan_run(s) == ScanState::Start { completed: Seq::<nat>::empty() });
        assert(s =~= groups_text(Seq::<nat>::empty()));
    } else {
        let t = s.drop_last();
        let c = s.last();
        lemma_scan_sound(t);
        assert(scan_run(s) == scan_step(scan_run(t), c));
        match scan_run(t) {
            ScanState::Start { completed } => {
                if is_digit_char(c) {
                    lemma_digit_char_id(c);
                    assert(spec_dec(digit_char_val(c)) == seq![c]);
                    assert(s =~= groups_text(completed) + spec_dec(digit_char_val(c)));
                }
            },
            ScanState::InGroup { completed, val } => {
                if is_digit_char(c) {
                    if !(val == 0 || val * 10 + digit_char_val(c) > group_limit(completed)) {
                        lemma_digit_char_id(c);
                        let v2 = val * 10 + digit_char_val(c);
                        assert(v2 >= 10 && v2 / 10 == val && v2 % 10 == digit_char_val(c)) by (nonlinear_arith)
                            requires
                                val >= 1,
                                digit_char_val(c) < 10,
                                v2 == val * 10 + digit_char_val(c),
                        ;
                        assert(spec_dec(v2) == spec_dec(val).push(c));
                        assert(s =~= t.push(c));
                        assert((groups_text(completed) + spec_dec(val)).push(c) =~= groups_text(
                            completed,
                        ) + spec_dec(val).push(c));
                        assert(s =~= groups_text(completed) + spec_dec(v2));
                    }
                } else if c == '.' && completed.len() < 3 {
                    let c2 = completed.push(val);
                    assert(c2.drop_last() =~= completed);
                    assert(s =~= groups_text(c2));
                } else if c == ':' && completed.len() == 3 {
                    let c2 = completed.push(val);
                    assert(c2.drop_last() =~= completed);
                    assert(s =~= groups_text(c2));
                }
            },
            ScanState::Failed => {},
        }
    }
}

/// The converse of the round trip: the parser accepts nothing but
/// canonical endpoint texts.  Whenever parsing yields an endpoint,
/// the input was exactly that endpoint's rendering.
pub proof fn lemma_parse_sound(s: Seq<char>, a: Addr)
    requires
        spec_parse_addr(s) == Some(a),
    ensures
        s == a.spec_str(),
{
    lemma_scan_sound(s);
    let st = scan_run(s);
    match st {
        ScanState::InGroup { completed, val } => {
            let c3 = completed.drop_last();
            let c2 = c3.drop_last();
            let c1 = c2.drop_last();
            let c0 = c1.drop_last();
            assert(c0 =~= Seq::<nat>::empty());
            assert(groups_text(c0) =~= Seq::<char>::empty());
            assert(groups_text(c1) =~= spec_dec(completed[0]) + seq!['.']);
            assert(groups_text(c2) =~= groups_text(c1) + spec_dec(completed[1]) + seq!['.']);
            assert(groups_text(c3) =~= groups_text(c2) + spec_dec(completed[2]) + seq!['.']);
            assert(groups_text(completed) =~= groups_text(c3) + spec_dec(completed[3]) + seq![
                ':',
            ]);
            assert(a.a as nat == completed[0]);
            assert(a.b as nat == completed[1]);
            assert(a.c as nat == completed[2]);
            assert(a.d as nat == completed[3]);
            assert(a.port as nat == val);
            assert(s =~= groups_text(completed) + spec_dec(val));
            assert(s =~= a.spec_str());
        },
        _ => {},
    }
}

/// The exec scanner state: `Failed` in the spec is the flag `failed`;
/// `in_group` tells `Start` from `InGroup`; finished octets are in
/// `groups` and the current group's value in `val`.
spec fn scan_matches(st: ScanState, failed: bool, in_group: bool, groups: Seq<u8>, val: u32) -> bool {
    if failed {
        st is Failed
    } else {
        let completed = groups.map_values(|x: u8| x as nat);
        &&& groups.len() <= 4
        &&& if in_group {
            &&& st == ScanState::InGroup { completed, val: val as nat }
            &&& val <= group_limit(completed)
        } else {
            st == ScanState::Start { completed }
        }
    }
}

impl Addr {
    /// Parses an operator-typed endpoint text.  The result is exactly
    /// what `spec_parse_addr` names: the endpoint whose canonical text
    /// the input is, or nothing when the input is not of that form.
    pub fn parse(s: &str) -> (r: Option<Addr>)
        ensures
            r == spec_parse_addr(s@),
    {
        let n: usize = s.unicode_len();
        let mut failed: bool = false;
        let mut in_group: bool = false;
        let mut groups: Vec<u8> = Vec::new();
        let mut val: u32 = 0;
        let mut i: usize = 0;
        proof {
            assert(s@.take(0) =~= Seq::<char>::empty());
            assert(groups@.map_values(|x: u8| x as nat) =~= Seq::<nat>::empty());
        }
        while i < n
            invariant
                n == s@.len(),
                i <= n,
                scan_matches(scan_run(s@.take(i as int)), failed, in_group, groups@, val),
            decreases n - i,
        {
            let c = s.get_char(i);
            proof {
                assert(s@.take(i + 1).drop_last() =~= s@.take(i as int));
                lemma_scan_push(
                    ScanState::Start { completed: Seq::empty() },
                    s@.take(i as int),
                    c,
                );
                assert(s@.take(i + 1) =~= s@.take(i as int).push(c));
            }
            let ghost completed_pre = groups@.map_values(|x: u8| x as nat);
            let ghost val_pre = val;
            if !failed {
                let u = c as u32;
                let is_digit = 48 <= u && u <= 57;
                if !in_group {
                    if is_digit {
                        in_group = true;
                        val = u - 48;
                    } else {
                        failed = true;
                    }
                } else {
                    if is_digit {
                        let limit: u32 = if groups.len() == 4 {
                            65535
                        } else {
                            255
                        };
                        if val == 0 || val * 10 + (u - 48) > limit {
                            failed = true;
                        } else {
                            val = val * 10 + (u - 48);
                        }
                    } else if c == '.' && groups.len() < 3 {
                        groups.push(val as u8);
                        in_group = false;
                        val = 0;
                        proof {
                            assert(groups@.map_values(|x: u8| x as nat) =~= completed_pre.push(
                                val_pre as nat,
                            ));
                        }
                    } else if c == ':' && groups.len() == 3 {
                        groups.push(val as u8);
                        in_group = false;
                        val = 0;
                        proof {
                            assert(groups@.map_values(|x: u8| x as nat) =~= completed_pre.push(
                                val_pre as nat,
                            ));
                        }
                    } else {
                        failed = true;
                    }
                }
                proof {
                    assert(scan_matches(
                        scan_run(s@.take(i + 1)),
                        failed,
                        in_group,
                        groups@,
                        val,
                    ));
                }
            }
            i = i + 1;
        }
        proof {
            assert(s@.take(n as int) =~= s@);
        }
        if !failed && in_group && groups.len() == 4 {
            Some(
                Addr {
                    a: groups[0],
                    b: groups[1],
                    c: groups[2],
                    d: groups[3],
                    port: val as u16,
                },
            )
        } else {
            None
        }
    }
}

} // verus!
