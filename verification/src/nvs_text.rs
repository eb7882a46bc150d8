use vstd::prelude::*;

verus! {

/// `s` with every trailing NUL character removed.
pub open spec fn trim_trailing_nul(s: Seq<char>) -> Seq<char>
    decreases s.len(),
{
    if s.len() > 0 && s.last() == '\0' {
        trim_trailing_nul(s.drop_last())
    } else {
        s
    }
}

/// What a string setting reads as: a stored value loses the NUL padding of
/// its fixed-size read buffer; a missing value reads as the empty string.
pub open spec fn setting_text(stored: Option<Seq<char>>) -> Seq<char> {
    match stored {
        Some(s) => trim_trailing_nul(s),
        None => Seq::empty(),
    }
}

/// `n` NUL characters.
pub open spec fn nuls(n: nat) -> Seq<char> {
    Seq::new(n, |i: int| '\0')
}

/// Law: a stored value that does not end in NUL reads back unchanged, however
/// much NUL padding follows it in the read buffer.
pub proof fn lemma_padding_read_back(s: Seq<char>, n: nat)
    requires
        s.len() == 0 || s.last() != '\0',
    ensures
        trim_trailing_nul(s + nuls(n)) == s,
    decreases n,
{
    if n == 0 {
        assert(s + nuls(0) =~= s);
    } else {
        assert((s + nuls(n)).drop_last() =~= s + nuls((n - 1) as nat));
        lemma_padding_read_back(s, (n - 1) as nat);
    }
}

/// Law: the text of a setting never ends in NUL, so reading it twice changes nothing.
pub proof fn lemma_trim_idempotent(s: Seq<char>)
    ensures
        trim_trailing_nul(s).len() == 0 || trim_trailing_nul(s).last() != '\0',
        trim_trailing_nul(trim_trailing_nul(s)) == trim_trailing_nul(s),
    decreases s.len(),
{
    if s.len() > 0 && s.last() == '\0' {
        lemma_trim_idempotent(s.drop_last());
    }
}

/// A text is its trim followed by NULs only.
proof fn lemma_trim_shape(s: Seq<char>)
    ensures
        trim_trailing_nul(s).len() <= s.len(),
        s == trim_trailing_nul(s) + nuls((s.len() - trim_trailing_nul(s).len()) as nat),
    decreases s.len(),
{
    if s.len() > 0 && s.last() == '\0' {
        let d = s.drop_last();
        lemma_trim_shape(d);
        let t = trim_trailing_nul(d);
        let k = (d.len() - t.len()) as nat;
        assert(s =~= d.push('\0'));
        assert(t + nuls(k + 1) =~= (t + nuls(k)).push('\0'));
        assert((s.len() - t.len()) as nat == k + 1);
    } else {
        assert(s =~= s + nuls(0));
    }
}

/// Law: a setting reads as the stored text with exactly its trailing NULs
/// removed: the stored text is the setting's text followed by NULs only, and
/// that text does not end in NUL. A missing setting reads as empty.
pub proof fn lemma_setting_text_shape(stored: Option<Seq<char>>)
    ensures
        stored is None ==> setting_text(stored) == Seq::<char>::empty(),
        stored matches Some(s) ==> (setting_text(stored).len() <= s.len() && s == setting_text(
            stored,
        ) + nuls((s.len() - setting_text(stored).len()) as nat) && (setting_text(stored).len()
            == 0 || setting_text(stored).last() != '\0')),
{
    match stored {
        Some(s) => {
            lemma_trim_shape(s);
            lemma_trim_idempotent(s);
        },
        None => {},
    }
}

/// Law: a value that does not end in NUL, stored and read back with any
/// amount of NUL padding, reads as itself.
pub proof fn lemma_setting_read_back(s: Seq<char>, n: nat)
    requires
        s.len() == 0 || s.last() != '\0',
    ensures
        setting_text(Some(s + nuls(n))) == s,
{
    lemma_padding_read_back(s, n);
}

/// Turns the raw outcome of a string-setting lookup into the setting's text.
pub fn nvs_str_from_stored(stored: Option<&str>) -> (text: String)
    ensures
        text@ == setting_text(
            match stored {
                Some(s) => Some(s@),
                None => None,
            },
        ),
{
    match stored {
        None => String::new(),
        Some(s) => {
            let mut end: usize = s.unicode_len();
            assert(s@.subrange(0, end as int) =~= s@);
            while end > 0 && s.get_char(end - 1) == '\0'
                invariant
                    end <= s@.len(),
                    trim_trailing_nul(s@) == trim_trailing_nul(s@.subrange(0, end as int)),
                decreases end,
            {
                assert(s@.subrange(0, end as int).drop_last() =~= s@.subrange(0, end - 1));
                end = end - 1;
            }
            assert(end > 0 ==> s@.subrange(0, end as int).last() == s@[end - 1]);
            s.substring_char(0, end).to_owned()
        },
    }
}

} // verus!
