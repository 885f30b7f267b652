//! What is hashed can be read in one way only: the text of a transaction
//! tells its fields, and the text of a block's pointer and nonce tells both.
use vstd::prelude::*;
use crate::block::BlockView;
use crate::text::{
    decimal, lemma_decimal_is_readable, lemma_string_text_is_readable, optional_string_text,
    string_text,
};
use crate::transaction::{TransactionDataView, TransactionView};

verus! {

/// A text that starts with `start` goes on in one way only.
proof fn lemma_same_start(start: Seq<char>, a: Seq<char>, b: Seq<char>)
    requires
        start + a == start + b,
    ensures
        a == b,
{
    assert(a =~= (start + a).skip(start.len() as int));
    assert(b =~= (start + b).skip(start.len() as int));
}

/// Putting texts one behind the other can be started at either end.
proof fn lemma_assoc(a: Seq<char>, b: Seq<char>, c: Seq<char>)
    ensures
        (a + b) + c == a + (b + c),
{
    assert((a + b) + c =~= a + (b + c));
}

/// Texts that are put one behind the other from the left are the same as
/// put one behind the other from the right: four of them,
proof fn lemma_regroup_four(a: Seq<char>, b: Seq<char>, c: Seq<char>, d: Seq<char>)
    ensures
        a + b + c + d == a + (b + (c + d)),
{
    assert(a + b + c + d =~= a + (b + (c + d)));
}

/// six,
proof fn lemma_regroup_six(
    a: Seq<char>,
    b: Seq<char>,
    c: Seq<char>,
    d: Seq<char>,
    e: Seq<char>,
    f: Seq<char>,
)
    ensures
        a + b + c + d + e + f == a + (b + (c + (d + (e + f)))),
{
    assert(a + b + c + d + e + f =~= a + (b + (c + (d + (e + f)))));
}

/// eight,
proof fn lemma_regroup_eight(
    a: Seq<char>,
    b: Seq<char>,
    c: Seq<char>,
    d: Seq<char>,
    e: Seq<char>,
    f: Seq<char>,
    g: Seq<char>,
    h: Seq<char>,
)
    ensures
        a + b + c + d + e + f + g + h == a + (b + (c + (d + (e + (f + (g + h)))))),
{
    assert(a + b + c + d + e + f + g + h =~= a + (b + (c + (d + (e + (f + (g + h)))))));
}

/// nine,
proof fn lemma_regroup_nine(
    a: Seq<char>,
    b: Seq<char>,
    c: Seq<char>,
    d: Seq<char>,
    e: Seq<char>,
    f: Seq<char>,
    g: Seq<char>,
    h: Seq<char>,
    i: Seq<char>,
)
    ensures
        a + b + c + d + e + f + g + h + i == a + (b + (c + (d + (e + (f + (g + (h + i))))))),
{
    assert(a + b + c + d + e + f + g + h + i =~= a + (b + (c + (d + (e + (f + (g + (h + i))))))));
}

/// and eleven.
proof fn lemma_regroup_eleven(
    a: Seq<char>,
    b: Seq<char>,
    c: Seq<char>,
    d: Seq<char>,
    e: Seq<char>,
    f: Seq<char>,
    g: Seq<char>,
    h: Seq<char>,
    i: Seq<char>,
    j: Seq<char>,
    k: Seq<char>,
)
    ensures
        a + b + c + d + e + f + g + h + i + j + k == a + (b + (c + (d + (e + (f + (g + (h + (i + (j
            + k))))))))),
{
    assert(a + b + c + d + e + f + g + h + i + j + k =~= a + (b + (c + (d + (e + (f + (g + (h + (i
        + (j + k))))))))));
}

/// Behind the same start, the text form of a string and what follows it
/// can be read in one way only.
proof fn lemma_read_string(
    start: Seq<char>,
    a: Seq<char>,
    after_a: Seq<char>,
    b: Seq<char>,
    after_b: Seq<char>,
)
    requires
        start + (string_text(a) + after_a) == start + (string_text(b) + after_b),
    ensures
        a == b,
        after_a == after_b,
{
    lemma_same_start(start, string_text(a) + after_a, string_text(b) + after_b);
    lemma_string_text_is_readable(a, after_a, b, after_b);
}

/// Behind the same start, a number that is followed by a closing bracket,
/// a comma or a dot, and what follows it, can be read in one way only.
proof fn lemma_read_number(start: Seq<char>, a: nat, after_a: Seq<char>, b: nat, after_b: Seq<char>)
    requires
        start + (decimal(a) + after_a) == start + (decimal(b) + after_b),
        after_a.len() > 0 && (after_a[0] == ')' || after_a[0] == ',' || after_a[0] == '.'),
        after_b.len() > 0 && (after_b[0] == ')' || after_b[0] == ',' || after_b[0] == '.'),
    ensures
        a == b,
        after_a == after_b,
{
    lemma_same_start(start, decimal(a) + after_a, decimal(b) + after_b);
    lemma_decimal_is_readable(a, after_a, b, after_b);
}

/// What follows two strings in a payload: a comma, a string, a closing
/// bracket.
spec fn then_string(value: Seq<char>, after: Seq<char>) -> Seq<char> {
    ", "@ + (string_text(value) + (")"@ + after))
}

/// What follows a string in a payload that ends with an amount: a comma,
/// the amount, a closing bracket.
spec fn then_amount(amount: nat, after: Seq<char>) -> Seq<char> {
    ", "@ + (decimal(amount) + (")"@ + after))
}

proof fn lemma_read_then_amount(a: nat, after_a: Seq<char>, b: nat, after_b: Seq<char>)
    requires
        then_amount(a, after_a) == then_amount(b, after_b),
    ensures
        a == b,
        after_a == after_b,
{
    reveal_strlit(")");
    let t1 = ")"@ + after_a;
    let t2 = ")"@ + after_b;
    assert(t1[0] == ')' && t2[0] == ')');
    lemma_read_number(", "@, a, t1, b, t2);
    lemma_same_start(")"@, after_a, after_b);
}

/// A payload with one string and an amount, behind the same start.
proof fn lemma_read_string_amount(
    start: Seq<char>,
    s: Seq<char>,
    amount: nat,
    after: Seq<char>,
    s2: Seq<char>,
    amount2: nat,
    after2: Seq<char>,
)
    requires
        start + string_text(s) + ", "@ + decimal(amount) + ")"@ + after == start + string_text(s2)
            + ", "@ + decimal(amount2) + ")"@ + after2,
    ensures
        s == s2,
        amount == amount2,
        after == after2,
{
    let r1 = then_amount(amount, after);
    let r2 = then_amount(amount2, after2);
    lemma_regroup_six(start, string_text(s), ", "@, decimal(amount), ")"@, after);
    lemma_regroup_six(start, string_text(s2), ", "@, decimal(amount2), ")"@, after2);
    lemma_read_string(start, s, r1, s2, r2);
    lemma_read_then_amount(amount, after, amount2, after2);
}

/// A payload with two strings, behind the same start.
proof fn lemma_read_two_strings(
    start: Seq<char>,
    s: Seq<char>,
    t: Seq<char>,
    after: Seq<char>,
    s2: Seq<char>,
    t2: Seq<char>,
    after2: Seq<char>,
)
    requires
        start + string_text(s) + ", "@ + string_text(t) + ")"@ + after == start + string_text(s2)
            + ", "@ + string_text(t2) + ")"@ + after2,
    ensures
        s == s2,
        t == t2,
        after == after2,
{
    let r1 = then_string(t, after);
    let r2 = then_string(t2, after2);
    lemma_regroup_six(start, string_text(s), ", "@, string_text(t), ")"@, after);
    lemma_regroup_six(start, string_text(s2), ", "@, string_text(t2), ")"@, after2);
    lemma_read_string(start, s, r1, s2, r2);
    lemma_read_string(", "@, t, ")"@ + after, t2, ")"@ + after2);
    lemma_same_start(")"@, after, after2);
}

/// A payload with two strings and an amount, behind the same start.
proof fn lemma_read_two_strings_amount(
    start: Seq<char>,
    s: Seq<char>,
    t: Seq<char>,
    amount: nat,
    after: Seq<char>,
    s2: Seq<char>,
    t2: Seq<char>,
    amount2: nat,
    after2: Seq<char>,
)
    requires
        start + string_text(s) + ", "@ + string_text(t) + ", "@ + decimal(amount) + ")"@ + after
            == start + string_text(s2) + ", "@ + string_text(t2) + ", "@ + decimal(amount2) + ")"@
            + after2,
    ensures
        s == s2,
        t == t2,
        amount == amount2,
        after == after2,
{
    let q1 = then_amount(amount, after);
    let q2 = then_amount(amount2, after2);
    let r1 = ", "@ + (string_text(t) + q1);
    let r2 = ", "@ + (string_text(t2) + q2);
    lemma_regroup_eight(
        start,
        string_text(s),
        ", "@,
        string_text(t),
        ", "@,
        decimal(amount),
        ")"@,
        after,
    );
    lemma_regroup_eight(
        start,
        string_text(s2),
        ", "@,
        string_text(t2),
        ", "@,
        decimal(amount2),
        ")"@,
        after2,
    );
    lemma_read_string(start, s, r1, s2, r2);
    lemma_read_string(", "@, t, q1, t2, q2);
    lemma_read_then_amount(amount, after, amount2, after2);
}

/// The name of a standard, behind the same start and before a comma.
proof fn lemma_read_standard(
    start: Seq<char>,
    a: crate::smart_contract::SmartContractStanderd,
    after_a: Seq<char>,
    b: crate::smart_contract::SmartContractStanderd,
    after_b: Seq<char>,
)
    requires
        start + (a.name() + after_a) == start + (b.name() + after_b),
    ensures
        a == b,
        after_a == after_b,
{
    reveal_strlit("ESC20");
    reveal_strlit("ESC721");
    lemma_same_start(start, a.name() + after_a, b.name() + after_b);
    if a != b {
        assert((a.name() + after_a)[3] != (b.name() + after_b)[3]);
    }
    lemma_same_start(a.name(), after_a, after_b);
}

/// A payload with a string, a standard, a string and an amount, behind the
/// same start.
proof fn lemma_read_deployment(
    start: Seq<char>,
    s: Seq<char>,
    standard: crate::smart_contract::SmartContractStanderd,
    t: Seq<char>,
    amount: nat,
    after: Seq<char>,
    s2: Seq<char>,
    standard2: crate::smart_contract::SmartContractStanderd,
    t2: Seq<char>,
    amount2: nat,
    after2: Seq<char>,
)
    requires
        start + string_text(s) + ", "@ + standard.name() + ", "@ + string_text(t) + ", "@ + decimal(
            amount,
        ) + ")"@ + after == start + string_text(s2) + ", "@ + standard2.name() + ", "@
            + string_text(t2) + ", "@ + decimal(amount2) + ")"@ + after2,
    ensures
        s == s2,
        standard == standard2,
        t == t2,
        amount == amount2,
        after == after2,
{
    let q1 = ", "@ + (string_text(t) + then_amount(amount, after));
    let q2 = ", "@ + (string_text(t2) + then_amount(amount2, after2));
    let r1 = ", "@ + (standard.name() + q1);
    let r2 = ", "@ + (standard2.name() + q2);
    assert(start + string_text(s) + ", "@ + standard.name() + ", "@ + string_text(t) + ", "@
        + decimal(amount) + ")"@ + after == start + (string_text(s) + r1)) by {
        lemma_regroup_nine(
            start + string_text(s),
            ", "@,
            standard.name(),
            ", "@,
            string_text(t),
            ", "@,
            decimal(amount),
            ")"@,
            after,
        );
        lemma_assoc(start, string_text(s), r1);
    }
    assert(start + string_text(s2) + ", "@ + standard2.name() + ", "@ + string_text(t2) + ", "@
        + decimal(amount2) + ")"@ + after2 == start + (string_text(s2) + r2)) by {
        lemma_regroup_nine(
            start + string_text(s2),
            ", "@,
            standard2.name(),
            ", "@,
            string_text(t2),
            ", "@,
            decimal(amount2),
            ")"@,
            after2,
        );
        lemma_assoc(start, string_text(s2), r2);
    }
    lemma_read_string(start, s, r1, s2, r2);
    lemma_read_standard(", "@, standard, q1, standard2, q2);
    lemma_read_string(", "@, t, then_amount(amount, after), t2, then_amount(amount2, after2));
    lemma_read_then_amount(amount, after, amount2, after2);
}

impl<F> TransactionDataView<F> {
    /// The payloads are the same but for the handler of a contract that they
    /// deploy.
    pub open spec fn same_but_for_handler(self, other: Self) -> bool {
        match (self, other) {
            (
                TransactionDataView::DeploySmartContract { publisher, sc },
                TransactionDataView::DeploySmartContract { publisher: other_publisher, sc: other_sc },
            ) => publisher == other_publisher && sc.standard == other_sc.standard && sc.publisher
                == other_sc.publisher && sc.total_suply == other_sc.total_suply,
            _ => self == other,
        }
    }

    /// The word that the payload's text starts with.
    spec fn start(self) -> Seq<char> {
        match self {
            TransactionDataView::CreateUserAccount => "CreateUserAccount"@,
            TransactionDataView::ChangeStoreValue { .. } => "ChangeStoreValue("@,
            TransactionDataView::TransferToken { .. } => "TransferToken("@,
            TransactionDataView::Transfer { .. } => "Transfer("@,
            TransactionDataView::MintTokens { .. } => "MintTokens("@,
            TransactionDataView::DeploySmartContract { .. } => "DeploySmartContract("@,
        }
    }

    /// The characters at the places 0, 1 and 8 of the payload's text.  They
    /// tell the kinds of payload apart.
    spec fn marks(self) -> (char, char, char) {
        match self {
            TransactionDataView::CreateUserAccount => ('C', 'r', 'e'),
            TransactionDataView::ChangeStoreValue { .. } => ('C', 'h', 'o'),
            TransactionDataView::TransferToken { .. } => ('T', 'r', 'T'),
            TransactionDataView::Transfer { .. } => ('T', 'r', '('),
            TransactionDataView::MintTokens { .. } => ('M', 'i', 'n'),
            TransactionDataView::DeploySmartContract { .. } => ('D', 'e', 'a'),
        }
    }

    proof fn lemma_start(self)
        ensures
            self.start().len() > 8,
            (self.start()[0], self.start()[1], self.start()[8]) == self.marks(),
            self.start().is_prefix_of(self.text()),
    {
        match self {
            TransactionDataView::CreateUserAccount => {
                reveal_strlit("CreateUserAccount");
            },
            TransactionDataView::ChangeStoreValue { .. } => {
                reveal_strlit("ChangeStoreValue(");
            },
            TransactionDataView::TransferToken { .. } => {
                reveal_strlit("TransferToken(");
            },
            TransactionDataView::Transfer { .. } => {
                reveal_strlit("Transfer(");
            },
            TransactionDataView::MintTokens { .. } => {
                reveal_strlit("MintTokens(");
            },
            TransactionDataView::DeploySmartContract { .. } => {
                reveal_strlit("DeploySmartContract(");
            },
        }
    }

    /// Payloads of different kinds have different texts, whatever follows
    /// them.
    proof fn lemma_kinds_differ(self, after: Seq<char>, other: Self, after_other: Seq<char>)
        requires
            self.text() + after == other.text() + after_other,
        ensures
            self.marks() == other.marks(),
    {
        self.lemma_start();
        other.lemma_start();
        let x = self.text() + after;
        let y = other.text() + after_other;
        assert(x[0] == self.start()[0] && x[1] == self.start()[1] && x[8] == self.start()[8]);
        assert(y[0] == other.start()[0] && y[1] == other.start()[1] && y[8] == other.start()[8]);
    }

    /// A payload's text can be read in one way only, whatever follows it: if
    /// two such texts are the same, the payloads are the same but for the
    /// handler of a contract, and what follows them is the same.
    pub proof fn lemma_text_is_readable(self, after: Seq<char>, other: Self, after_other: Seq<char>)
        requires
            self.text() + after == other.text() + after_other,
        ensures
            self.same_but_for_handler(other),
            after == after_other,
    {
        self.lemma_kinds_differ(after, other, after_other);
        match (self, other) {
            (TransactionDataView::CreateUserAccount, TransactionDataView::CreateUserAccount) => {
                lemma_same_start("CreateUserAccount"@, after, after_other);
            },
            (
                TransactionDataView::ChangeStoreValue { key, value },
                TransactionDataView::ChangeStoreValue { key: key2, value: value2 },
            ) => {
                lemma_read_two_strings(
                    "ChangeStoreValue("@,
                    key,
                    value,
                    after,
                    key2,
                    value2,
                    after_other,
                );
            },
            (
                TransactionDataView::TransferToken { token, to, amount },
                TransactionDataView::TransferToken { token: token2, to: to2, amount: amount2 },
            ) => {
                lemma_read_two_strings_amount(
                    "TransferToken("@,
                    token,
                    to,
                    amount as nat,
                    after,
                    token2,
                    to2,
                    amount2 as nat,
                    after_other,
                );
            },
            (
                TransactionDataView::Transfer { to, amount },
                TransactionDataView::Transfer { to: to2, amount: amount2 },
            ) => {
                lemma_read_string_amount(
                    "Transfer("@,
                    to,
                    amount as nat,
                    after,
                    to2,
                    amount2 as nat,
                    after_other,
                );
            },
            (
                TransactionDataView::MintTokens { receiver, amount },
                TransactionDataView::MintTokens { receiver: receiver2, amount: amount2 },
            ) => {
                lemma_read_string_amount(
                    "MintTokens("@,
                    receiver,
                    amount as nat,
                    after,
                    receiver2,
                    amount2 as nat,
                    after_other,
                );
            },
            (
                TransactionDataView::DeploySmartContract { publisher, sc },
                TransactionDataView::DeploySmartContract { publisher: publisher2, sc: sc2 },
            ) => {
                lemma_read_deployment(
                    "DeploySmartContract("@,
                    publisher,
                    sc.standard,
                    sc.publisher,
                    sc.total_suply as nat,
                    after,
                    publisher2,
                    sc2.standard,
                    sc2.publisher,
                    sc2.total_suply as nat,
                    after_other,
                );
            },
            _ => {},
        }
    }
}

/// The parts of a transaction's text, one behind the other from the right.
spec fn transaction_text(secs: nat, nanos: nat, data: Seq<char>, from: Seq<char>, nonce: nat) -> Seq<
    char,
> {
    "("@ + (decimal(secs) + ("."@ + (decimal(nanos) + (", "@ + (data + (", "@ + (string_text(from)
        + then_amount(nonce, Seq::empty()))))))))
}

proof fn lemma_transaction_text<F>(t: TransactionView<F>)
    ensures
        t.text() == transaction_text(
            t.created_at.secs as nat,
            t.created_at.nanos as nat,
            t.data.text(),
            t.from,
            t.nonce as nat,
        ),
{
    lemma_regroup_eleven(
        "("@,
        decimal(t.created_at.secs as nat),
        "."@,
        decimal(t.created_at.nanos as nat),
        ", "@,
        t.data.text(),
        ", "@,
        string_text(t.from),
        ", "@,
        decimal(t.nonce as nat),
        ")"@,
    );
    assert(")"@ + Seq::<char>::empty() =~= ")"@);
}

/// Texts with the same parts in the same order can be read in one way
/// only.
proof fn lemma_read_transaction_text(
    secs: nat,
    nanos: nat,
    data: Seq<char>,
    from: Seq<char>,
    nonce: nat,
    secs2: nat,
    nanos2: nat,
    data2: Seq<char>,
    from2: Seq<char>,
    nonce2: nat,
)
    requires
        transaction_text(secs, nanos, data, from, nonce) == transaction_text(
            secs2,
            nanos2,
            data2,
            from2,
            nonce2,
        ),
    ensures
        secs == secs2,
        nanos == nanos2,
        data + (", "@ + (string_text(from) + then_amount(nonce, Seq::empty()))) == data2 + (", "@ + (
        string_text(from2) + then_amount(nonce2, Seq::empty()))),
{
    reveal_strlit(".");
    reveal_strlit(", ");
    let f1 = ", "@ + (string_text(from) + then_amount(nonce, Seq::empty()));
    let f2 = ", "@ + (string_text(from2) + then_amount(nonce2, Seq::empty()));
    let d1 = ", "@ + (data + f1);
    let d2 = ", "@ + (data2 + f2);
    let m1 = "."@ + (decimal(nanos) + d1);
    let m2 = "."@ + (decimal(nanos2) + d2);
    assert(m1[0] == '.' && m2[0] == '.' && d1[0] == ',' && d2[0] == ',');
    lemma_read_number("("@, secs, m1, secs2, m2);
    lemma_read_number("."@, nanos, d1, nanos2, d2);
    lemma_same_start(", "@, data + f1, data2 + f2);
}

/// What is hashed tells the transaction: transactions with the same text
/// are the same but for their signatures and for the handler of a contract
/// that they deploy.
pub proof fn lemma_text_tells_the_transaction<F>(a: TransactionView<F>, b: TransactionView<F>)
    requires
        a.text() == b.text(),
    ensures
        a.created_at == b.created_at,
        a.data.same_but_for_handler(b.data),
        a.from == b.from,
        a.nonce == b.nonce,
{
    lemma_transaction_text(a);
    lemma_transaction_text(b);
    lemma_read_transaction_text(
        a.created_at.secs as nat,
        a.created_at.nanos as nat,
        a.data.text(),
        a.from,
        a.nonce as nat,
        b.created_at.secs as nat,
        b.created_at.nanos as nat,
        b.data.text(),
        b.from,
        b.nonce as nat,
    );
    let n1 = then_amount(a.nonce as nat, Seq::empty());
    let n2 = then_amount(b.nonce as nat, Seq::empty());
    let f1 = ", "@ + (string_text(a.from) + n1);
    let f2 = ", "@ + (string_text(b.from) + n2);
    a.data.lemma_text_is_readable(f1, b.data, f2);
    lemma_read_string(", "@, a.from, n1, b.from, n2);
    lemma_read_then_amount(a.nonce as nat, Seq::empty(), b.nonce as nat, Seq::empty());
}

/// The text form of an optional string, and what follows it, can be read in
/// one way only.
proof fn lemma_read_optional_string(
    a: Option<Seq<char>>,
    after_a: Seq<char>,
    b: Option<Seq<char>>,
    after_b: Seq<char>,
)
    requires
        optional_string_text(a) + after_a == optional_string_text(b) + after_b,
    ensures
        a == b,
        after_a == after_b,
{
    reveal_strlit("Some(");
    reveal_strlit("None");
    let x = optional_string_text(a) + after_a;
    let y = optional_string_text(b) + after_b;
    assert(x[0] == optional_string_text(a)[0]);
    assert(y[0] == optional_string_text(b)[0]);
    match (a, b) {
        (Some(s), Some(t)) => {
            lemma_regroup_four("Some("@, string_text(s), ")"@, after_a);
            lemma_regroup_four("Some("@, string_text(t), ")"@, after_b);
            lemma_read_string("Some("@, s, ")"@ + after_a, t, ")"@ + after_b);
            lemma_same_start(")"@, after_a, after_b);
        },
        (None, None) => {
            lemma_same_start("None"@, after_a, after_b);
        },
        _ => {},
    }
}

/// The text of a block's pointer and nonce tells both: blocks with the same
/// such text point to the same block and have the same nonce.
pub proof fn lemma_link_text_tells_the_link<F>(a: BlockView<F>, b: BlockView<F>)
    requires
        a.link_text() == b.link_text(),
    ensures
        a.prev == b.prev,
        a.nonce == b.nonce,
{
    let n1 = then_amount(a.nonce as nat, Seq::empty());
    let n2 = then_amount(b.nonce as nat, Seq::empty());
    let p1 = optional_string_text(a.prev);
    let p2 = optional_string_text(b.prev);
    lemma_regroup_six("("@, p1, ", "@, decimal(a.nonce as nat), ")"@, Seq::empty());
    lemma_regroup_six("("@, p2, ", "@, decimal(b.nonce as nat), ")"@, Seq::empty());
    assert(a.link_text() + Seq::<char>::empty() =~= a.link_text());
    assert(b.link_text() + Seq::<char>::empty() =~= b.link_text());
    lemma_same_start("("@, p1 + n1, p2 + n2);
    lemma_read_optional_string(a.prev, n1, b.prev, n2);
    lemma_read_then_amount(a.nonce as nat, Seq::empty(), b.nonce as nat, Seq::empty());
}

} // verus!
