use vstd::prelude::*;
use crate::types::AccountId;

verus! {

/// One record of the registry, as it is kept in a flat store that maps
/// strings to values: the part of an account, of a request or of a guardian
/// that the record holds.
#[derive(Clone, Copy, Debug, PartialEq, Eq)]
pub enum Field {
    /// The guardians of an account.
    Guardians(AccountId),
    /// The threshold of an account.
    Threshold(AccountId),
    /// Whether an account has registered guardians.
    Initialized(AccountId),
    /// The id of the recovery opened for an account.
    OpenRecovery(AccountId),
    /// The id handed out last.
    Counter,
    /// The account that a request is for.
    Target(u64),
    /// The credential that a request proposes.
    Credential(u64),
    /// How many guardians have approved a request.
    ApprovalCount(u64),
    /// Whether a request is approved.
    Approved(u64),
    /// Whether a request has been finalized.
    Finalized(u64),
    /// Whether a guardian has approved a request.
    ApprovalMark(u64, AccountId),
    /// The accounts that a guardian protects.
    Protected(AccountId),
    /// The requests that await a guardian.
    Recoveries(AccountId),
}

/// The character for a digit below sixteen, in lower case.
pub open spec fn digit(n: int) -> char {
    seq!['0', '1', '2', '3', '4', '5', '6', '7', '8', '9', 'a', 'b', 'c', 'd', 'e', 'f'][n]
}

/// Two hexadecimal digits for each byte, the high half first.
pub open spec fn hex_lower(bytes: Seq<u8>) -> Seq<char> {
    Seq::new(
        2 * bytes.len(),
        |i: int|
            if i % 2 == 0 {
                digit(bytes[i / 2] as int / 16)
            } else {
                digit(bytes[i / 2] as int % 16)
            },
    )
}

/// An identity as text: its 32 bytes in hexadecimal, in brackets after the
/// word `AccountHash`.
pub open spec fn account_text(account: AccountId) -> Seq<char> {
    "AccountHash("@ + hex_lower(account.bytes@) + ")"@
}

/// A number in decimal, without leading zeros.
pub open spec fn decimal(n: nat) -> Seq<char>
    decreases n,
{
    if n < 10 {
        seq![digit(n as int)]
    } else {
        decimal(n / 10).push(digit((n % 10) as int))
    }
}

/// The key of a record: a short tag that says which part it is, then the
/// account or the request id as text.
pub open spec fn key_text(field: Field) -> Seq<char> {
    match field {
        Field::Guardians(account) => "g"@ + account_text(account),
        Field::Threshold(account) => "t"@ + account_text(account),
        Field::Initialized(account) => "i"@ + account_text(account),
        Field::OpenRecovery(account) => "a"@ + account_text(account),
        Field::Counter => "c"@,
        Field::Target(id) => "ra"@ + decimal(id as nat),
        Field::Credential(id) => "rk"@ + decimal(id as nat),
        Field::ApprovalCount(id) => "rc"@ + decimal(id as nat),
        Field::Approved(id) => "ro"@ + decimal(id as nat),
        Field::Finalized(id) => "rf"@ + decimal(id as nat),
        Field::ApprovalMark(id, guardian) => "rp"@ + decimal(id as nat) + "_"@ + account_text(
            guardian,
        ),
        Field::Protected(guardian) => "ga"@ + account_text(guardian),
        Field::Recoveries(guardian) => "gr"@ + account_text(guardian),
    }
}

/// The text that `casper_types::account::AccountHash` gives for an identity
/// when it is formatted with `{:?}`. Its `Debug` impl writes the word
/// `AccountHash`, an opening bracket, the bytes as `base16::encode_lower`
/// gives them, and a closing bracket; this is what the contract claims.
#[verifier::external_body]
fn account_debug(account: &AccountId) -> (text: String)
    ensures
        text@ == account_text(*account),
{
    format!("{:?}", casper_types::account::AccountHash::new(account.bytes))
}

/// The text that `casper_types::U256` gives for a number when it is formatted
/// with `{}`. Its `Display` impl writes the decimal digits, the most
/// significant first, and `0` for zero; this is what the contract claims.
#[verifier::external_body]
fn id_display(id: u64) -> (text: String)
    ensures
        text@ == decimal(id as nat),
{
    format!("{}", casper_types::U256::from(id))
}

fn tagged(tag: &str, text: String) -> (key: String)
    ensures
        key@ == tag@ + text@,
{
    let mut key = String::from_str(tag);
    key.append(text.as_str());
    key
}

/// The key under which a record is kept.
pub fn storage_key(field: &Field) -> (key: String)
    ensures
        key@ == key_text(*field),
{
    match field {
        Field::Guardians(account) => tagged("g", account_debug(account)),
        Field::Threshold(account) => tagged("t", account_debug(account)),
        Field::Initialized(account) => tagged("i", account_debug(account)),
        Field::OpenRecovery(account) => tagged("a", account_debug(account)),
        Field::Counter => String::from_str("c"),
        Field::Target(id) => tagged("ra", id_display(*id)),
        Field::Credential(id) => tagged("rk", id_display(*id)),
        Field::ApprovalCount(id) => tagged("rc", id_display(*id)),
        Field::Approved(id) => tagged("ro", id_display(*id)),
        Field::Finalized(id) => tagged("rf", id_display(*id)),
        Field::ApprovalMark(id, guardian) => {
            let mut key = tagged("rp", id_display(*id));
            key.append("_");
            key.append(account_debug(guardian).as_str());
            key
        },
        Field::Protected(guardian) => tagged("ga", account_debug(guardian)),
        Field::Recoveries(guardian) => tagged("gr", account_debug(guardian)),
    }
}

/// Two digits below sixteen with the same character are the same digit.
pub proof fn lemma_digit_injective(a: int, b: int)
    requires
        0 <= a < 16,
        0 <= b < 16,
        digit(a) == digit(b),
    ensures
        a == b,
{
    assert(digit(0) == '0' && digit(1) == '1' && digit(2) == '2' && digit(3) == '3');
    assert(digit(4) == '4' && digit(5) == '5' && digit(6) == '6' && digit(7) == '7');
    assert(digit(8) == '8' && digit(9) == '9' && digit(10) == 'a' && digit(11) == 'b');
    assert(digit(12) == 'c' && digit(13) == 'd' && digit(14) == 'e' && digit(15) == 'f');
}

/// Byte strings of one length with the same hexadecimal text are the same.
pub proof fn lemma_hex_injective(a: Seq<u8>, b: Seq<u8>)
    requires
        hex_lower(a) == hex_lower(b),
    ensures
        a == b,
{
    assert(hex_lower(a).len() == 2 * a.len());
    assert(hex_lower(b).len() == 2 * b.len());
    assert forall|k: int| 0 <= k < a.len() implies a[k] == b[k] by {
        assert(hex_lower(a)[2 * k] == digit(a[k] as int / 16));
        assert(hex_lower(b)[2 * k] == digit(b[k] as int / 16));
        assert(hex_lower(a)[2 * k + 1] == digit(a[k] as int % 16));
        assert(hex_lower(b)[2 * k + 1] == digit(b[k] as int % 16));
        lemma_digit_injective(a[k] as int / 16, b[k] as int / 16);
        lemma_digit_injective(a[k] as int % 16, b[k] as int % 16);
    }
    assert(a =~= b);
}

/// The text of an identity is 77 characters long and starts with `A`.
pub proof fn lemma_account_text_shape(account: AccountId)
    ensures
        account_text(account).len() == 77,
        account_text(account)[0] == 'A',
{
    reveal_strlit("AccountHash(");
    reveal_strlit(")");
}

/// Two identities with the same text are the same.
pub proof fn lemma_account_text_injective(a: AccountId, b: AccountId)
    requires
        account_text(a) == account_text(b),
    ensures
        a == b,
{
    reveal_strlit("AccountHash(");
    reveal_strlit(")");
    let ha = hex_lower(a.bytes@);
    let hb = hex_lower(b.bytes@);
    assert(account_text(a).subrange(12, 76) =~= ha);
    assert(account_text(b).subrange(12, 76) =~= hb);
    lemma_hex_injective(a.bytes@, b.bytes@);
    assert(a.bytes =~= b.bytes);
}

/// A number in decimal has at least one character.
pub proof fn lemma_decimal_nonempty(n: nat)
    ensures
        decimal(n).len() >= 1,
    decreases n,
{
    if n >= 10 {
        lemma_decimal_nonempty(n / 10);
    }
}

/// Two numbers with the same decimal text are the same.
pub proof fn lemma_decimal_injective(n: nat, m: nat)
    requires
        decimal(n) == decimal(m),
    ensures
        n == m,
    decreases n,
{
    lemma_decimal_nonempty(n / 10);
    lemma_decimal_nonempty(m / 10);
    if n < 10 {
        assert(decimal(n).len() == 1);
        assert(m >= 10 ==> decimal(m).len() == decimal(m / 10).len() + 1);
        assert(m < 10);
        assert(decimal(n)[0] == digit(n as int));
        assert(decimal(m)[0] == digit(m as int));
        lemma_digit_injective(n as int, m as int);
    } else {
        assert(decimal(n).len() == decimal(n / 10).len() + 1);
        assert(m < 10 ==> decimal(m).len() == 1);
        assert(m >= 10);
        let dn = decimal(n / 10);
        let dm = decimal(m / 10);
        assert(decimal(n).last() == digit((n % 10) as int));
        assert(decimal(m).last() == digit((m % 10) as int));
        lemma_digit_injective((n % 10) as int, (m % 10) as int);
        assert(decimal(n).drop_last() =~= dn);
        assert(decimal(m).drop_last() =~= dm);
        lemma_decimal_injective(n / 10, m / 10);
    }
}

/// How a key begins, and how long it is at least: this tells the parts of
/// the registry apart.
pub proof fn lemma_key_head(field: Field)
    ensures
        match field {
            Field::Guardians(_) => key_text(field)[0] == 'g' && key_text(field)[1] == 'A',
            Field::Threshold(_) => key_text(field)[0] == 't',
            Field::Initialized(_) => key_text(field)[0] == 'i',
            Field::OpenRecovery(_) => key_text(field)[0] == 'a',
            Field::Counter => key_text(field)[0] == 'c',
            Field::Target(_) => key_text(field)[0] == 'r' && key_text(field)[1] == 'a',
            Field::Credential(_) => key_text(field)[0] == 'r' && key_text(field)[1] == 'k',
            Field::ApprovalCount(_) => key_text(field)[0] == 'r' && key_text(field)[1] == 'c',
            Field::Approved(_) => key_text(field)[0] == 'r' && key_text(field)[1] == 'o',
            Field::Finalized(_) => key_text(field)[0] == 'r' && key_text(field)[1] == 'f',
            Field::ApprovalMark(_, _) => key_text(field)[0] == 'r' && key_text(field)[1] == 'p',
            Field::Protected(_) => key_text(field)[0] == 'g' && key_text(field)[1] == 'a',
            Field::Recoveries(_) => key_text(field)[0] == 'g' && key_text(field)[1] == 'r',
        },
        key_text(field).len() >= 1,
{
    reveal_strlit("g");
    reveal_strlit("t");
    reveal_strlit("i");
    reveal_strlit("a");
    reveal_strlit("c");
    reveal_strlit("ra");
    reveal_strlit("rk");
    reveal_strlit("rc");
    reveal_strlit("ro");
    reveal_strlit("rf");
    reveal_strlit("rp");
    reveal_strlit("ga");
    reveal_strlit("gr");
    match field {
        Field::Guardians(account) => lemma_account_text_shape(account),
        _ => {},
    }
}

/// Which part of the registry a record belongs to, by number.
pub open spec fn part(field: Field) -> int {
    match field {
        Field::Guardians(_) => 0,
        Field::Threshold(_) => 1,
        Field::Initialized(_) => 2,
        Field::OpenRecovery(_) => 3,
        Field::Counter => 4,
        Field::Target(_) => 5,
        Field::Credential(_) => 6,
        Field::ApprovalCount(_) => 7,
        Field::Approved(_) => 8,
        Field::Finalized(_) => 9,
        Field::ApprovalMark(_, _) => 10,
        Field::Protected(_) => 11,
        Field::Recoveries(_) => 12,
    }
}

/// Records with the same key belong to the same part.
pub proof fn lemma_same_part(a: Field, b: Field)
    requires
        key_text(a) == key_text(b),
    ensures
        part(a) == part(b),
{
    lemma_key_head(a);
    lemma_key_head(b);
}

/// What follows a tag in a key is what was put behind it.
proof fn lemma_behind_tag(tag: Seq<char>, a: Seq<char>, b: Seq<char>)
    requires
        tag + a == tag + b,
    ensures
        a == b,
{
    assert((tag + a).subrange(tag.len() as int, (tag + a).len() as int) =~= a);
    assert((tag + b).subrange(tag.len() as int, (tag + b).len() as int) =~= b);
}

proof fn lemma_account_key(tag: Seq<char>, a: AccountId, b: AccountId)
    requires
        tag + account_text(a) == tag + account_text(b),
    ensures
        a == b,
{
    lemma_behind_tag(tag, account_text(a), account_text(b));
    lemma_account_text_injective(a, b);
}

proof fn lemma_id_key(tag: Seq<char>, a: u64, b: u64)
    requires
        tag + decimal(a as nat) == tag + decimal(b as nat),
    ensures
        a == b,
{
    lemma_behind_tag(tag, decimal(a as nat), decimal(b as nat));
    lemma_decimal_injective(a as nat, b as nat);
}

proof fn lemma_mark_key(tag: Seq<char>, bar: Seq<char>, x: u64, g: AccountId, y: u64, h: AccountId)
    requires
        tag + decimal(x as nat) + bar + account_text(g) == tag + decimal(y as nat) + bar
            + account_text(h),
    ensures
        x == y,
        g == h,
{
    let dx = decimal(x as nat);
    let dy = decimal(y as nat);
    let tx = bar + account_text(g);
    let ty = bar + account_text(h);
    lemma_account_text_shape(g);
    lemma_account_text_shape(h);
    assert(tag + dx + bar + account_text(g) =~= tag + (dx + tx));
    assert(tag + dy + bar + account_text(h) =~= tag + (dy + ty));
    lemma_behind_tag(tag, dx + tx, dy + ty);
    assert(dx.len() == dy.len());
    assert((dx + tx).subrange(0, dx.len() as int) =~= dx);
    assert((dy + ty).subrange(0, dy.len() as int) =~= dy);
    assert((dx + tx).subrange(dx.len() as int, (dx + tx).len() as int) =~= tx);
    assert((dy + ty).subrange(dy.len() as int, (dy + ty).len() as int) =~= ty);
    lemma_decimal_injective(x as nat, y as nat);
    lemma_behind_tag(bar, account_text(g), account_text(h));
    lemma_account_text_injective(g, h);
}

/// No two records share a key: the flat store keeps the parts of the
/// registry apart, and within each part the accounts and the requests.
pub proof fn keys_are_distinct(a: Field, b: Field)
    requires
        key_text(a) == key_text(b),
    ensures
        a == b,
{
    lemma_same_part(a, b);
    match (a, b) {
        (Field::Guardians(x), Field::Guardians(y)) => lemma_account_key("g"@, x, y),
        (Field::Threshold(x), Field::Threshold(y)) => lemma_account_key("t"@, x, y),
        (Field::Initialized(x), Field::Initialized(y)) => lemma_account_key("i"@, x, y),
        (Field::OpenRecovery(x), Field::OpenRecovery(y)) => lemma_account_key("a"@, x, y),
        (Field::Protected(x), Field::Protected(y)) => lemma_account_key("ga"@, x, y),
        (Field::Recoveries(x), Field::Recoveries(y)) => lemma_account_key("gr"@, x, y),
        (Field::Target(x), Field::Target(y)) => lemma_id_key("ra"@, x, y),
        (Field::Credential(x), Field::Credential(y)) => lemma_id_key("rk"@, x, y),
        (Field::ApprovalCount(x), Field::ApprovalCount(y)) => lemma_id_key("rc"@, x, y),
        (Field::Approved(x), Field::Approved(y)) => lemma_id_key("ro"@, x, y),
        (Field::Finalized(x), Field::Finalized(y)) => lemma_id_key("rf"@, x, y),
        (Field::ApprovalMark(x, g), Field::ApprovalMark(y, h)) => lemma_mark_key(
            "rp"@,
            "_"@,
            x,
            g,
            y,
            h,
        ),
        _ => {},
    }
}

} // verus!
