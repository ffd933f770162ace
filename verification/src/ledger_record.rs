//! The journal entry value built from one surviving row, and its rendering
//! as fixed-format ledger text.

use vstd::prelude::*;
use vstd::string::StringExecFns;
use crate::dates::Date;
use crate::dates::format_date;
use crate::dates::spec_date_str;

verus! {

/// The mathematical image of a journal entry: what the contracts speak of.
#[verifier::ext_equal]
pub struct LedgerRecordV {
    /// Year, month, day.
    pub date: (int, int, int),
    /// The payee, trimmed.
    pub payee: Seq<char>,
    /// The bank/cash-side account.
    pub first_account: Seq<char>,
    /// The amount in canonical form: a leading minus means an expense.
    pub first_amount: Seq<char>,
    /// The amount's currency code.
    pub first_amount_currency: Seq<char>,
    /// The category/counter account.
    pub second_account: Seq<char>,
    /// The concatenated comment, where comment columns are configured.
    pub comment: Option<Seq<char>>,
}

/// One double-entry journal entry, ready to be rendered.
pub struct LedgerRecord {
    /// The entry's date.
    pub date: Date,
    /// The payee, trimmed.
    pub payee: String,
    /// The bank/cash-side account.
    pub first_account: String,
    /// The amount in canonical form: a leading minus means an expense.
    pub first_amount: String,
    /// The amount's currency code.
    pub first_amount_currency: String,
    /// The category/counter account.
    pub second_account: String,
    /// The concatenated comment, where comment columns are configured.
    pub comment: Option<String>,
}

impl View for LedgerRecord {
    type V = LedgerRecordV;

    open spec fn view(&self) -> LedgerRecordV {
        LedgerRecordV {
            date: (self.date.year as int, self.date.month as int, self.date.day as int),
            payee: self.payee@,
            first_account: self.first_account@,
            first_amount: self.first_amount@,
            first_amount_currency: self.first_amount_currency@,
            second_account: self.second_account@,
            comment: match self.comment {
                Some(ref c) => Some(c@),
                None => None,
            },
        }
    }
}

/// The fixed-format text of one journal entry: the date line with the quoted
/// payee, an optional comment line, the first account with its amount and
/// currency, the second account, and a terminating blank line, the indented
/// lines each opening with eight spaces.
pub open spec fn spec_render(v: LedgerRecordV) -> Seq<char> {
    spec_date_str(v.date) + " * \""@ + v.payee + "\"\n"@ + (match v.comment {
        Some(c) => "        ; "@ + c + "\n"@,
        None => Seq::<char>::empty(),
    }) + "        "@ + v.first_account + "        "@ + v.first_amount + " "@
        + v.first_amount_currency + "\n"@ + "        "@ + v.second_account + "\n"@ + "\n"@
}

impl LedgerRecord {
    /// Assembles a journal entry from its parts.
    pub fn new(
        date: Date,
        payee: String,
        first_account: String,
        first_amount: String,
        first_amount_currency: String,
        second_account: String,
        comment: Option<String>,
    ) -> (r: Self)
        ensures
            r == (LedgerRecord {
                date,
                payee,
                first_account,
                first_amount,
                first_amount_currency,
                second_account,
                comment,
            }),
    {
        LedgerRecord {
            date,
            payee,
            first_account,
            first_amount,
            first_amount_currency,
            second_account,
            comment,
        }
    }

    /// Renders the entry as the text block [`spec_render`] states.
    pub fn render(&self) -> (r: String)
        requires
            self.date.wf(),
        ensures
            r@ == spec_render(self@),
    {
        let mut s = format_date(&self.date);
        s.append(" * \"");
        s.append(self.payee.as_str());
        s.append("\"\n");
        match &self.comment {
            Some(c) => {
                s.append("        ; ");
                s.append(c.as_str());
                s.append("\n");
            },
            None => (),
        }
        s.append("        ");
        s.append(self.first_account.as_str());
        s.append("        ");
        s.append(self.first_amount.as_str());
        s.append(" ");
        s.append(self.first_amount_currency.as_str());
        s.append("\n");
        s.append("        ");
        s.append(self.second_account.as_str());
        s.append("\n");
        s.append("\n");
        proof {
            assert(s@ =~= spec_render(self@));
        }
        s
    }
}

} // verus!
