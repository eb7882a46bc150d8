use vstd::prelude::*;

verus! {

/// The character of decimal digit `d`.
pub open spec fn digit_char(d: int) -> char {
    seq!['0', '1', '2', '3', '4', '5', '6', '7', '8', '9'][d]
}

/// The decimal digits of `n`, most significant first, without leading zeros.
pub open spec fn decimal(n: nat) -> Seq<char>
    decreases n,
{
    if n < 10 {
        seq![digit_char(n as int)]
    } else {
        decimal(n / 10).push(digit_char((n % 10) as int))
    }
}

/// A value counted in hundredths, written with two decimals: `2534` is `25.34`.
pub open spec fn centi_text(v: nat) -> Seq<char> {
    decimal(v / 100) + seq!['.', digit_char(((v % 100) / 10) as int), digit_char((v % 10) as int)]
}

/// The value of a decimal digit character, or -1 for any other character.
pub open spec fn digit_value(c: char) -> int {
    if c == '0' {
        0
    } else if c == '1' {
        1
    } else if c == '2' {
        2
    } else if c == '3' {
        3
    } else if c == '4' {
        4
    } else if c == '5' {
        5
    } else if c == '6' {
        6
    } else if c == '7' {
        7
    } else if c == '8' {
        8
    } else if c == '9' {
        9
    } else {
        -1
    }
}

/// The number that a string of decimal digits reads as.
pub open spec fn read_decimal(s: Seq<char>) -> int
    decreases s.len(),
{
    if s.len() == 0 {
        0
    } else {
        read_decimal(s.drop_last()) * 10 + digit_value(s.last())
    }
}

/// The label of the switch state in a status report: "开" (on) for 1,
/// "关" (off) otherwise.
pub open spec fn switch_label_text(switch_on: u8) -> Seq<char> {
    if switch_on == 1 {
        "\u{5f00}"@
    } else {
        "\u{5173}"@
    }
}

/// The status report published to the broker: a JSON list of the
/// temperature, the humidity (both in hundredths, written with two
/// decimals) and the switch label, laid out over several lines.
pub open spec fn status_payload_text(temp_centi: nat, hum_centi: nat, switch_on: u8) -> Seq<
    char,
> {
    "[\n                    {\"k\": \"T\",\"v\":\""@ + centi_text(temp_centi)
        + "\"},\n                    {\"k\": \"H\",\"v\":\""@ + centi_text(hum_centi)
        + "\"},\n                    {\"k\": \"On\",\"v\":\""@ + switch_label_text(switch_on)
        + "\"}\n                  ]"@
}

fn digit_text(d: u32) -> (t: &'static str)
    requires
        d < 10,
    ensures
        t@ == seq![digit_char(d as int)],
{
    let table: &'static str = "0123456789";
    proof {
        reveal_strlit("0123456789");
        assert(table@ =~= seq!['0', '1', '2', '3', '4', '5', '6', '7', '8', '9']);
    }
    let t = table.substring_char(d as usize, d as usize + 1);
    assert(t@ =~= seq![digit_char(d as int)]);
    t
}

/// `n` written in decimal.
pub fn decimal_text(n: u32) -> (t: String)
    ensures
        t@ == decimal(n as nat),
    decreases n,
{
    if n < 10 {
        digit_text(n).to_owned()
    } else {
        let mut t = decimal_text(n / 10);
        t.append(digit_text(n % 10));
        t
    }
}

/// A value counted in hundredths, written with two decimals, exactly.
/// This is the text `format!("{:.2}", v as f32 / 100.)` gives for every
/// reading the sensor can produce (checked by test over 0..=20000, not
/// proved); above about 8 million hundredths the `f32` route loses precision
/// and the two differ: 16777217 is "167772.17" here and "167772.16" there.
pub fn centi_value_text(v: u32) -> (t: String)
    ensures
        t@ == centi_text(v as nat),
{
    let mut t = decimal_text(v / 100);
    proof {
        reveal_strlit(".");
    }
    t.append(".");
    t.append(digit_text((v % 100) / 10));
    t.append(digit_text(v % 10));
    assert(t@ =~= centi_text(v as nat));
    t
}

/// The label of the switch state: "开" for 1, "关" otherwise.
pub fn switch_label(switch_on: u8) -> (label: &'static str)
    ensures
        label@ == switch_label_text(switch_on),
{
    if switch_on == 1 {
        "\u{5f00}"
    } else {
        "\u{5173}"
    }
}

/// The status report for these readings and switch state. The values are
/// written exactly in hundredths (see `centi_value_text`); for values above
/// about 8 million hundredths this differs from formatting them through
/// `f32`, which loses precision there.
pub fn status_payload(temp_centi: u32, hum_centi: u32, switch_on: u8) -> (payload: String)
    ensures
        payload@ == status_payload_text(temp_centi as nat, hum_centi as nat, switch_on),
{
    let mut p = "[\n                    {\"k\": \"T\",\"v\":\"".to_owned();
    let temp = centi_value_text(temp_centi);
    p.append(temp.as_str());
    p.append("\"},\n                    {\"k\": \"H\",\"v\":\"");
    let hum = centi_value_text(hum_centi);
    p.append(hum.as_str());
    p.append("\"},\n                    {\"k\": \"On\",\"v\":\"");
    p.append(switch_label(switch_on));
    p.append("\"}\n                  ]");
    p
}

/// What the status loop knows between two rounds.
pub struct StatusState {
    /// The last temperature read, in hundredths of a degree Celsius.
    pub temp_centi: u32,
    /// The last relative humidity read, in hundredths of a percent.
    pub hum_centi: u32,
    /// The switch state at start-up: 1 is on.
    pub switch_on: u8,
}

/// The state the status loop starts from, out of what storage holds: the
/// switch counts as on when nothing is stored, a missing reading as 0.
pub fn initial_status(
    stored_switch: Option<u8>,
    stored_temp: Option<u32>,
    stored_hum: Option<u32>,
) -> (state: StatusState)
    ensures
        state.switch_on == (match stored_switch {
            Some(v) => v,
            None => 1u8,
        }),
        state.temp_centi == (match stored_temp {
            Some(v) => v,
            None => 0u32,
        }),
        state.hum_centi == (match stored_hum {
            Some(v) => v,
            None => 0u32,
        }),
{
    let switch_on = match stored_switch {
        Some(v) => v,
        None => 1,
    };
    let temp_centi = match stored_temp {
        Some(v) => v,
        None => 0,
    };
    let hum_centi = match stored_hum {
        Some(v) => v,
        None => 0,
    };
    StatusState { temp_centi, hum_centi, switch_on }
}

/// The pause between two rounds of the status loop.
pub const STATUS_PERIOD_MS: u32 = 60000;

/// What one round of the status loop asks for.
pub struct StatusReport {
    /// The temperature to store, when one was read.
    pub store_temp: Option<u32>,
    /// The humidity to store, when one was read.
    pub store_hum: Option<u32>,
    /// The report to publish, when both values are above zero.
    pub publish: Option<String>,
    /// How long to wait before the next round.
    pub pause_ms: u32,
}

/// One round of the status loop: keeps the readings that succeeded, asks to
/// store them, publishes a report once both values are above zero, and
/// then waits a minute.
pub fn status_round(
    state: &mut StatusState,
    temp_reading: Option<u32>,
    hum_reading: Option<u32>,
) -> (report: StatusReport)
    ensures
        final(state).temp_centi == (match temp_reading {
            Some(t) => t,
            None => old(state).temp_centi,
        }),
        final(state).hum_centi == (match hum_reading {
            Some(h) => h,
            None => old(state).hum_centi,
        }),
        final(state).switch_on == old(state).switch_on,
        report.store_temp == temp_reading,
        report.store_hum == hum_reading,
        report.pause_ms == STATUS_PERIOD_MS,
        report.publish is Some <==> (final(state).temp_centi > 0 && final(state).hum_centi > 0),
        report.publish matches Some(p) ==> p@ == status_payload_text(
            final(state).temp_centi as nat,
            final(state).hum_centi as nat,
            final(state).switch_on,
        ),
{
    match temp_reading {
        Some(t) => state.temp_centi = t,
        None => {},
    }
    match hum_reading {
        Some(h) => state.hum_centi = h,
        None => {},
    }
    let payload = status_payload(state.temp_centi, state.hum_centi, state.switch_on);
    let publish = if state.temp_centi > 0 && state.hum_centi > 0 {
        Some(payload)
    } else {
        None
    };
    StatusReport {
        store_temp: temp_reading,
        store_hum: hum_reading,
        publish,
        pause_ms: STATUS_PERIOD_MS,
    }
}

proof fn lemma_digit_roundtrip(d: int)
    requires
        0 <= d < 10,
    ensures
        digit_value(digit_char(d)) == d,
{
}

/// Law: a number written in decimal reads back as that number.
pub proof fn lemma_decimal_reads_back(n: nat)
    ensures
        read_decimal(decimal(n)) == n,
    decreases n,
{
    if n < 10 {
        lemma_digit_roundtrip(n as int);
        let s = seq![digit_char(n as int)];
        assert(s.drop_last() =~= Seq::<char>::empty());
        assert(s.last() == digit_char(n as int));
        assert(read_decimal(s) == read_decimal(s.drop_last()) * 10 + digit_value(s.last()));
    } else {
        lemma_decimal_reads_back(n / 10);
        lemma_digit_roundtrip((n % 10) as int);
        let s = decimal(n / 10).push(digit_char((n % 10) as int));
        assert(s.drop_last() =~= decimal(n / 10));
        assert(s.last() == digit_char((n % 10) as int));
        assert(read_decimal(s) == read_decimal(s.drop_last()) * 10 + digit_value(s.last()));
    }
}

/// Law: a value in hundredths, written with two decimals, reads back as the
/// value once the point is dropped.
pub proof fn lemma_centi_reads_back(v: nat)
    ensures
        read_decimal(decimal(v / 100) + seq![
            digit_char(((v % 100) / 10) as int),
            digit_char((v % 10) as int),
        ]) == v,
{
    let head = decimal(v / 100);
    let a = digit_char(((v % 100) / 10) as int);
    let b = digit_char((v % 10) as int);
    let s = head + seq![a, b];
    lemma_decimal_reads_back(v / 100);
    lemma_digit_roundtrip(((v % 100) / 10) as int);
    lemma_digit_roundtrip((v % 10) as int);
    assert(s.drop_last() =~= head.push(a));
    assert(head.push(a).drop_last() =~= head);
    assert(s.last() == b);
    assert(s.drop_last().last() == a);
    assert(read_decimal(s) == read_decimal(s.drop_last()) * 10 + digit_value(b));
    assert(read_decimal(head.push(a)) == read_decimal(head) * 10 + digit_value(a));
    assert(read_decimal(s) == (read_decimal(head) * 10 + (v % 100) / 10) * 10 + v % 10);
    assert(v == (v / 100) * 100 + ((v % 100) / 10) * 10 + v % 10) by (nonlinear_arith);
}

/// Every character of `s` is a decimal digit.
pub open spec fn is_digit_text(s: Seq<char>) -> bool {
    forall|i: int| 0 <= i < s.len() ==> 0 <= #[trigger] digit_value(s[i]) <= 9
}

/// Law: a number's decimal text is a non-empty run of digits, without a
/// leading zero (unless it is `0`), that reads back as the number.
pub proof fn lemma_decimal_canonical(n: nat)
    ensures
        decimal(n).len() >= 1,
        is_digit_text(decimal(n)),
        decimal(n)[0] != '0' || n == 0,
        read_decimal(decimal(n)) == n,
    decreases n,
{
    lemma_decimal_reads_back(n);
    if n < 10 {
        lemma_digit_roundtrip(n as int);
        assert(decimal(n)[0] == digit_char(n as int));
    } else {
        lemma_decimal_canonical(n / 10);
        lemma_digit_roundtrip((n % 10) as int);
        let d = decimal(n / 10);
        let s = d.push(digit_char((n % 10) as int));
        assert(s[0] == d[0]);
        assert forall|i: int| 0 <= i < s.len() implies 0 <= #[trigger] digit_value(s[i]) <= 9 by {
            if i < d.len() {
                assert(s[i] == d[i]);
            }
        }
    }
}

/// Law: a value in hundredths is written as digits, a point, then exactly
/// two digits; without the point the digits read back as the value, and
/// the whole part has no leading zero unless it is `0`.
pub proof fn lemma_centi_canonical(v: nat)
    ensures
        centi_text(v).len() >= 4,
        centi_text(v)[centi_text(v).len() - 3] == '.',
        is_digit_text(centi_text(v).subrange(0, centi_text(v).len() - 3)),
        is_digit_text(centi_text(v).subrange(centi_text(v).len() - 2, centi_text(v).len() as int)),
        read_decimal(
            centi_text(v).subrange(0, centi_text(v).len() - 3) + centi_text(v).subrange(
                centi_text(v).len() - 2,
                centi_text(v).len() as int,
            ),
        ) == v,
        centi_text(v)[0] != '0' || centi_text(v).len() == 4,
{
    let c = centi_text(v);
    let head = decimal(v / 100);
    let a = digit_char(((v % 100) / 10) as int);
    let b = digit_char((v % 10) as int);
    lemma_decimal_canonical(v / 100);
    lemma_centi_reads_back(v);
    lemma_digit_roundtrip(((v % 100) / 10) as int);
    lemma_digit_roundtrip((v % 10) as int);
    assert(c.subrange(0, c.len() - 3) =~= head);
    assert(c.subrange(c.len() - 2, c.len() as int) =~= seq![a, b]);
    assert(head + seq![a, b] =~= c.subrange(0, c.len() - 3) + c.subrange(
        c.len() - 2,
        c.len() as int,
    ));
    assert(c[0] == head[0]);
    if head[0] == '0' {
        assert(v / 100 == 0);
        assert(head.len() == 1);
    }
    let frac = seq![a, b];
    assert(is_digit_text(frac)) by {
        assert forall|i: int| 0 <= i < 2 implies 0 <= #[trigger] digit_value(frac[i]) <= 9 by {
            if i == 0 {
                assert(frac[i] == a);
            } else {
                assert(frac[i] == b);
            }
        }
    }
}

/// Law: the status report is laid out as a JSON list whose `On` entry is
/// `开` exactly when the switch state is 1, and `关` otherwise.
pub proof fn lemma_payload_layout(temp_centi: nat, hum_centi: nat, switch_on: u8)
    ensures
        status_payload_text(temp_centi, hum_centi, switch_on) == "[\n                    {\"k\": \"T\",\"v\":\""@
            + centi_text(temp_centi) + "\"},\n                    {\"k\": \"H\",\"v\":\""@
            + centi_text(hum_centi) + "\"},\n                    {\"k\": \"On\",\"v\":\""@ + (if switch_on
            == 1 {
            seq!['\u{5f00}']
        } else {
            seq!['\u{5173}']
        }) + "\"}\n                  ]"@,
{
    reveal_strlit("\u{5f00}");
    reveal_strlit("\u{5173}");
    assert("\u{5f00}"@ =~= seq!['\u{5f00}']);
    assert("\u{5173}"@ =~= seq!['\u{5173}']);
}

/// Law: the switch label is `开` for state 1 and `关` for every other state.
pub proof fn lemma_switch_label(switch_on: u8)
    ensures
        switch_label_text(switch_on) == (if switch_on == 1 {
            seq!['\u{5f00}']
        } else {
            seq!['\u{5173}']
        }),
{
    reveal_strlit("\u{5f00}");
    reveal_strlit("\u{5173}");
    assert("\u{5f00}"@ =~= seq!['\u{5f00}']);
    assert("\u{5173}"@ =~= seq!['\u{5173}']);
}

/// Law: two reports for the same readings are equal exactly when they agree
/// on whether the switch is on: the report always tells the switch state.
pub proof fn lemma_payload_tells_switch(temp_centi: nat, hum_centi: nat, a: u8, b: u8)
    ensures
        status_payload_text(temp_centi, hum_centi, a) == status_payload_text(temp_centi, hum_centi, b)
            <==> ((a == 1) == (b == 1)),
{
    lemma_payload_layout(temp_centi, hum_centi, a);
    lemma_payload_layout(temp_centi, hum_centi, b);
    let head = "[\n                    {\"k\": \"T\",\"v\":\""@ + centi_text(temp_centi)
        + "\"},\n                    {\"k\": \"H\",\"v\":\""@ + centi_text(hum_centi)
        + "\"},\n                    {\"k\": \"On\",\"v\":\""@;
    let tail = "\"}\n                  ]"@;
    let la: Seq<char> = if a == 1 { seq!['\u{5f00}'] } else { seq!['\u{5173}'] };
    let lb: Seq<char> = if b == 1 { seq!['\u{5f00}'] } else { seq!['\u{5173}'] };
    if (a == 1) != (b == 1) {
        assert((head + la + tail)[head.len() as int] == la[0]);
        assert((head + lb + tail)[head.len() as int] == lb[0]);
    } else {
        assert(la == lb);
    }
}

} // verus!
