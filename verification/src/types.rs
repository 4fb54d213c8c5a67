//! Tenants and the Xero resources the service can address.

use vstd::prelude::*;

use crate::error::{Error, ErrorView};
use crate::text::{lower, lower_char, same};

verus! {

/// A Xero organisation (tenant) ID, e.g. `"a5f3b2..."`.
#[derive(Debug, Hash)]
pub struct TenantId {
    id: String,
}

impl View for TenantId {
    type V = Seq<char>;

    closed spec fn view(&self) -> Seq<char> {
        self.id@
    }
}

impl TenantId {
    pub fn new(s: &str) -> (r: TenantId)
        ensures
            r@ == s@,
    {
        TenantId { id: s.to_owned() }
    }

    pub fn as_str(&self) -> (r: &str)
        ensures
            r@ == self@,
    {
        self.id.as_str()
    }
}

impl Clone for TenantId {
    fn clone(&self) -> (r: TenantId)
        ensures
            r@ == self@,
    {
        TenantId { id: self.id.clone() }
    }
}

impl PartialEq for TenantId {
    fn eq(&self, other: &TenantId) -> (r: bool) {
        self.id == other.id
    }
}

impl vstd::std_specs::cmp::PartialEqSpecImpl for TenantId {
    open spec fn obeys_eq_spec() -> bool {
        true
    }

    open spec fn eq_spec(&self, other: &TenantId) -> bool {
        self@ == other@
    }
}

impl Eq for TenantId {}

/// Xero resources this service can address.
/// `all()` returns the default Accounting API sync set; payroll-only or logical
/// aliases can remain parseable without being part of full-sync iteration.
#[derive(Debug, Clone, Copy, PartialEq, Eq, Hash, Structural)]
pub enum EntityType {
    // GL & Ledger
    Accounts,
    Journals,
    ManualJournals,
    TaxRates,
    TrackingCategories,

    // AR (Accounts Receivable)
    Contacts,
    Invoices,
    CreditNotes,
    Quotes,
    Payments,
    RepeatingInvoices,

    // AP (Accounts Payable)
    Bills,
    PurchaseOrders,
    Receipts,
    ExpenseClaims,
    BatchPayments,
    LinkedTransactions,

    // Cash & Banking
    BankTransactions,
    BankTransfers,

    // Inventory & Items
    Items,

    // Advanced
    Prepayments,
    Overpayments,
    Employees,

    // Organisation & Configuration
    Currencies,
    Organisations,
    BrandingThemes,
    ContactGroups,
    Budgets,
    PaymentServices,
    Users,

    // Reports (Accounting API `Reports/*`). Parameterized point-in-time
    // payloads — parseable and individually syncable, but deliberately NOT
    // part of `all()` (the full-sync iteration set). Each is fetched via
    // `fetch_report` and stored as an immutable snapshot keyed by
    // (report, param-signature, run-date). See `all_reports()`.
    ReportProfitAndLoss,
    ReportBalanceSheet,
    ReportTrialBalance,
    ReportAgedReceivablesByContact,
    ReportAgedPayablesByContact,
    ReportBankSummary,
    ReportBudgetSummary,
    ReportExecutiveSummary,
}

impl EntityType {
    /// The API path segment used in Xero REST calls (e.g. `Invoices`). Bills
    /// are purchase invoices and share that path; a report's path has a slash.
    pub open spec fn path(self) -> Seq<char> {
        match self {
            EntityType::Accounts => "Accounts"@,
            EntityType::BankTransactions => "BankTransactions"@,
            EntityType::BankTransfers => "BankTransfers"@,
            EntityType::BatchPayments => "BatchPayments"@,
            EntityType::Bills => "Invoices"@,
            EntityType::BrandingThemes => "BrandingThemes"@,
            EntityType::Budgets => "Budgets"@,
            EntityType::ContactGroups => "ContactGroups"@,
            EntityType::Contacts => "Contacts"@,
            EntityType::CreditNotes => "CreditNotes"@,
            EntityType::Currencies => "Currencies"@,
            EntityType::Employees => "Employees"@,
            EntityType::ExpenseClaims => "ExpenseClaims"@,
            EntityType::Invoices => "Invoices"@,
            EntityType::Items => "Items"@,
            EntityType::Journals => "Journals"@,
            EntityType::LinkedTransactions => "LinkedTransactions"@,
            EntityType::ManualJournals => "ManualJournals"@,
            EntityType::Organisations => "Organisation"@,
            EntityType::Overpayments => "Overpayments"@,
            EntityType::Payments => "Payments"@,
            EntityType::PaymentServices => "PaymentServices"@,
            EntityType::Prepayments => "Prepayments"@,
            EntityType::PurchaseOrders => "PurchaseOrders"@,
            EntityType::Quotes => "Quotes"@,
            EntityType::Receipts => "Receipts"@,
            EntityType::RepeatingInvoices => "RepeatingInvoices"@,
            EntityType::TaxRates => "TaxRates"@,
            EntityType::TrackingCategories => "TrackingCategories"@,
            EntityType::Users => "Users"@,
            EntityType::ReportProfitAndLoss => "Reports/ProfitAndLoss"@,
            EntityType::ReportBalanceSheet => "Reports/BalanceSheet"@,
            EntityType::ReportTrialBalance => "Reports/TrialBalance"@,
            EntityType::ReportAgedReceivablesByContact => "Reports/AgedReceivablesByContact"@,
            EntityType::ReportAgedPayablesByContact => "Reports/AgedPayablesByContact"@,
            EntityType::ReportBankSummary => "Reports/BankSummary"@,
            EntityType::ReportBudgetSummary => "Reports/BudgetSummary"@,
            EntityType::ReportExecutiveSummary => "Reports/ExecutiveSummary"@,
        }
    }

    /// The API path segment used in Xero REST calls (e.g. `Invoices`). Bills
    /// are purchase invoices and share that path; a report's path has a slash.
    pub fn xero_path(&self) -> (r: &'static str)
        ensures
            r@ == self.path(),
    {
        match self {
            EntityType::Accounts => "Accounts",
            EntityType::BankTransactions => "BankTransactions",
            EntityType::BankTransfers => "BankTransfers",
            EntityType::BatchPayments => "BatchPayments",
            EntityType::Bills => "Invoices",
            EntityType::BrandingThemes => "BrandingThemes",
            EntityType::Budgets => "Budgets",
            EntityType::ContactGroups => "ContactGroups",
            EntityType::Contacts => "Contacts",
            EntityType::CreditNotes => "CreditNotes",
            EntityType::Currencies => "Currencies",
            EntityType::Employees => "Employees",
            EntityType::ExpenseClaims => "ExpenseClaims",
            EntityType::Invoices => "Invoices",
            EntityType::Items => "Items",
            EntityType::Journals => "Journals",
            EntityType::LinkedTransactions => "LinkedTransactions",
            EntityType::ManualJournals => "ManualJournals",
            EntityType::Organisations => "Organisation",
            EntityType::Overpayments => "Overpayments",
            EntityType::Payments => "Payments",
            EntityType::PaymentServices => "PaymentServices",
            EntityType::Prepayments => "Prepayments",
            EntityType::PurchaseOrders => "PurchaseOrders",
            EntityType::Quotes => "Quotes",
            EntityType::Receipts => "Receipts",
            EntityType::RepeatingInvoices => "RepeatingInvoices",
            EntityType::TaxRates => "TaxRates",
            EntityType::TrackingCategories => "TrackingCategories",
            EntityType::Users => "Users",
            EntityType::ReportProfitAndLoss => "Reports/ProfitAndLoss",
            EntityType::ReportBalanceSheet => "Reports/BalanceSheet",
            EntityType::ReportTrialBalance => "Reports/TrialBalance",
            EntityType::ReportAgedReceivablesByContact => "Reports/AgedReceivablesByContact",
            EntityType::ReportAgedPayablesByContact => "Reports/AgedPayablesByContact",
            EntityType::ReportBankSummary => "Reports/BankSummary",
            EntityType::ReportBudgetSummary => "Reports/BudgetSummary",
            EntityType::ReportExecutiveSummary => "Reports/ExecutiveSummary",
        }
    }

    /// The snake_case key used in object keys, database columns and checkpoints.
    pub open spec fn name(self) -> Seq<char> {
        match self {
            EntityType::Accounts => "accounts"@,
            EntityType::BankTransactions => "bank_transactions"@,
            EntityType::BankTransfers => "bank_transfers"@,
            EntityType::BatchPayments => "batch_payments"@,
            EntityType::Bills => "bills"@,
            EntityType::BrandingThemes => "branding_themes"@,
            EntityType::Budgets => "budgets"@,
            EntityType::ContactGroups => "contact_groups"@,
            EntityType::Contacts => "contacts"@,
            EntityType::CreditNotes => "credit_notes"@,
            EntityType::Currencies => "currencies"@,
            EntityType::Employees => "employees"@,
            EntityType::ExpenseClaims => "expense_claims"@,
            EntityType::Invoices => "invoices"@,
            EntityType::Items => "items"@,
            EntityType::Journals => "journals"@,
            EntityType::LinkedTransactions => "linked_transactions"@,
            EntityType::ManualJournals => "manual_journals"@,
            EntityType::Organisations => "organisations"@,
            EntityType::Overpayments => "overpayments"@,
            EntityType::Payments => "payments"@,
            EntityType::PaymentServices => "payment_services"@,
            EntityType::Prepayments => "prepayments"@,
            EntityType::PurchaseOrders => "purchase_orders"@,
            EntityType::Quotes => "quotes"@,
            EntityType::Receipts => "receipts"@,
            EntityType::RepeatingInvoices => "repeating_invoices"@,
            EntityType::TaxRates => "tax_rates"@,
            EntityType::TrackingCategories => "tracking_categories"@,
            EntityType::Users => "users"@,
            EntityType::ReportProfitAndLoss => "report_profit_and_loss"@,
            EntityType::ReportBalanceSheet => "report_balance_sheet"@,
            EntityType::ReportTrialBalance => "report_trial_balance"@,
            EntityType::ReportAgedReceivablesByContact => "report_aged_receivables_by_contact"@,
            EntityType::ReportAgedPayablesByContact => "report_aged_payables_by_contact"@,
            EntityType::ReportBankSummary => "report_bank_summary"@,
            EntityType::ReportBudgetSummary => "report_budget_summary"@,
            EntityType::ReportExecutiveSummary => "report_executive_summary"@,
        }
    }

    /// The snake_case key used in object keys, database columns and checkpoints.
    pub fn as_str(&self) -> (r: &'static str)
        ensures
            r@ == self.name(),
    {
        match self {
            EntityType::Accounts => "accounts",
            EntityType::BankTransactions => "bank_transactions",
            EntityType::BankTransfers => "bank_transfers",
            EntityType::BatchPayments => "batch_payments",
            EntityType::Bills => "bills",
            EntityType::BrandingThemes => "branding_themes",
            EntityType::Budgets => "budgets",
            EntityType::ContactGroups => "contact_groups",
            EntityType::Contacts => "contacts",
            EntityType::CreditNotes => "credit_notes",
            EntityType::Currencies => "currencies",
            EntityType::Employees => "employees",
            EntityType::ExpenseClaims => "expense_claims",
            EntityType::Invoices => "invoices",
            EntityType::Items => "items",
            EntityType::Journals => "journals",
            EntityType::LinkedTransactions => "linked_transactions",
            EntityType::ManualJournals => "manual_journals",
            EntityType::Organisations => "organisations",
            EntityType::Overpayments => "overpayments",
            EntityType::Payments => "payments",
            EntityType::PaymentServices => "payment_services",
            EntityType::Prepayments => "prepayments",
            EntityType::PurchaseOrders => "purchase_orders",
            EntityType::Quotes => "quotes",
            EntityType::Receipts => "receipts",
            EntityType::RepeatingInvoices => "repeating_invoices",
            EntityType::TaxRates => "tax_rates",
            EntityType::TrackingCategories => "tracking_categories",
            EntityType::Users => "users",
            EntityType::ReportProfitAndLoss => "report_profit_and_loss",
            EntityType::ReportBalanceSheet => "report_balance_sheet",
            EntityType::ReportTrialBalance => "report_trial_balance",
            EntityType::ReportAgedReceivablesByContact => "report_aged_receivables_by_contact",
            EntityType::ReportAgedPayablesByContact => "report_aged_payables_by_contact",
            EntityType::ReportBankSummary => "report_bank_summary",
            EntityType::ReportBudgetSummary => "report_budget_summary",
            EntityType::ReportExecutiveSummary => "report_executive_summary",
        }
    }

    /// Canonical record identifier field in each Xero payload item. `ReportID`
    /// is not stable across runs: a report's record id is synthesised instead.
    pub open spec fn id_field_name(self) -> Seq<char> {
        match self {
            EntityType::Accounts => "AccountID"@,
            EntityType::BankTransactions => "BankTransactionID"@,
            EntityType::BankTransfers => "BankTransferID"@,
            EntityType::BatchPayments => "BatchPaymentID"@,
            EntityType::Bills => "InvoiceID"@,
            EntityType::BrandingThemes => "BrandingThemeID"@,
            EntityType::Budgets => "BudgetID"@,
            EntityType::ContactGroups => "ContactGroupID"@,
            EntityType::Contacts => "ContactID"@,
            EntityType::CreditNotes => "CreditNoteID"@,
            EntityType::Currencies => "CurrencyCode"@,
            EntityType::Employees => "EmployeeID"@,
            EntityType::ExpenseClaims => "ExpenseClaimID"@,
            EntityType::Invoices => "InvoiceID"@,
            EntityType::Items => "ItemID"@,
            EntityType::Journals => "JournalID"@,
            EntityType::LinkedTransactions => "LinkedTransactionID"@,
            EntityType::ManualJournals => "ManualJournalID"@,
            EntityType::Organisations => "OrganisationID"@,
            EntityType::Overpayments => "OverpaymentID"@,
            EntityType::Payments => "PaymentID"@,
            EntityType::PaymentServices => "PaymentServiceID"@,
            EntityType::Prepayments => "PrepaymentID"@,
            EntityType::PurchaseOrders => "PurchaseOrderID"@,
            EntityType::Quotes => "QuoteID"@,
            EntityType::Receipts => "ReceiptID"@,
            EntityType::RepeatingInvoices => "RepeatingInvoiceID"@,
            EntityType::TaxRates => "TaxType"@,
            EntityType::TrackingCategories => "TrackingCategoryID"@,
            EntityType::Users => "UserID"@,
            EntityType::ReportProfitAndLoss
            | EntityType::ReportBalanceSheet
            | EntityType::ReportTrialBalance
            | EntityType::ReportAgedReceivablesByContact
            | EntityType::ReportAgedPayablesByContact
            | EntityType::ReportBankSummary
            | EntityType::ReportBudgetSummary
            | EntityType::ReportExecutiveSummary => "ReportID"@,
        }
    }

    /// Canonical record identifier field in each Xero payload item. `ReportID`
    /// is not stable across runs: a report's record id is synthesised instead.
    pub fn id_field(&self) -> (r: &'static str)
        ensures
            r@ == self.id_field_name(),
    {
        match self {
            EntityType::Accounts => "AccountID",
            EntityType::BankTransactions => "BankTransactionID",
            EntityType::BankTransfers => "BankTransferID",
            EntityType::BatchPayments => "BatchPaymentID",
            EntityType::Bills => "InvoiceID",
            EntityType::BrandingThemes => "BrandingThemeID",
            EntityType::Budgets => "BudgetID",
            EntityType::ContactGroups => "ContactGroupID",
            EntityType::Contacts => "ContactID",
            EntityType::CreditNotes => "CreditNoteID",
            EntityType::Currencies => "CurrencyCode",
            EntityType::Employees => "EmployeeID",
            EntityType::ExpenseClaims => "ExpenseClaimID",
            EntityType::Invoices => "InvoiceID",
            EntityType::Items => "ItemID",
            EntityType::Journals => "JournalID",
            EntityType::LinkedTransactions => "LinkedTransactionID",
            EntityType::ManualJournals => "ManualJournalID",
            EntityType::Organisations => "OrganisationID",
            EntityType::Overpayments => "OverpaymentID",
            EntityType::Payments => "PaymentID",
            EntityType::PaymentServices => "PaymentServiceID",
            EntityType::Prepayments => "PrepaymentID",
            EntityType::PurchaseOrders => "PurchaseOrderID",
            EntityType::Quotes => "QuoteID",
            EntityType::Receipts => "ReceiptID",
            EntityType::RepeatingInvoices => "RepeatingInvoiceID",
            EntityType::TaxRates => "TaxType",
            EntityType::TrackingCategories => "TrackingCategoryID",
            EntityType::Users => "UserID",
            EntityType::ReportProfitAndLoss
            | EntityType::ReportBalanceSheet
            | EntityType::ReportTrialBalance
            | EntityType::ReportAgedReceivablesByContact
            | EntityType::ReportAgedPayablesByContact
            | EntityType::ReportBankSummary
            | EntityType::ReportBudgetSummary
            | EntityType::ReportExecutiveSummary => "ReportID",
        }
    }

    /// The report entity types. Deliberately separate from [`EntityType::all`]:
    /// reports are invoked explicitly, never as part of a full sync.
    pub open spec fn all_reports_list() -> Seq<EntityType> {
        seq![
            EntityType::ReportProfitAndLoss,
            EntityType::ReportBalanceSheet,
            EntityType::ReportTrialBalance,
            EntityType::ReportAgedReceivablesByContact,
            EntityType::ReportAgedPayablesByContact,
            EntityType::ReportBankSummary,
            EntityType::ReportBudgetSummary,
            EntityType::ReportExecutiveSummary,
        ]
    }

    /// The report entity types. Deliberately separate from [`EntityType::all`]:
    /// reports are invoked explicitly, never as part of a full sync.
    pub fn all_reports() -> (r: &'static [EntityType])
        ensures
            r@ == Self::all_reports_list(),
    {
        let r: &'static [EntityType] = &[
            EntityType::ReportProfitAndLoss,
            EntityType::ReportBalanceSheet,
            EntityType::ReportTrialBalance,
            EntityType::ReportAgedReceivablesByContact,
            EntityType::ReportAgedPayablesByContact,
            EntityType::ReportBankSummary,
            EntityType::ReportBudgetSummary,
            EntityType::ReportExecutiveSummary,
        ];
        assert(r@ =~= Self::all_reports_list());
        r
    }

    /// Report entities synced by default: all but the two aged reports, which
    /// Xero only serves per contact.
    pub open spec fn reports_default_list() -> Seq<EntityType> {
        seq![
            EntityType::ReportProfitAndLoss,
            EntityType::ReportBalanceSheet,
            EntityType::ReportTrialBalance,
            EntityType::ReportBankSummary,
            EntityType::ReportBudgetSummary,
            EntityType::ReportExecutiveSummary,
        ]
    }

    /// Report entities synced by default: all but the two aged reports, which
    /// Xero only serves per contact.
    pub fn reports_default() -> (r: &'static [EntityType])
        ensures
            r@ == Self::reports_default_list(),
    {
        let r: &'static [EntityType] = &[
            EntityType::ReportProfitAndLoss,
            EntityType::ReportBalanceSheet,
            EntityType::ReportTrialBalance,
            EntityType::ReportBankSummary,
            EntityType::ReportBudgetSummary,
            EntityType::ReportExecutiveSummary,
        ];
        assert(r@ =~= Self::reports_default_list());
        r
    }

    /// Accounting API entity types used for full-sync iteration.
    pub open spec fn all_list() -> Seq<EntityType> {
        seq![
            EntityType::Accounts,
            EntityType::BankTransactions,
            EntityType::BankTransfers,
            EntityType::BatchPayments,
            EntityType::BrandingThemes,
            EntityType::Budgets,
            EntityType::ContactGroups,
            EntityType::Contacts,
            EntityType::CreditNotes,
            EntityType::Currencies,
            EntityType::ExpenseClaims,
            EntityType::Invoices,
            EntityType::Items,
            EntityType::Journals,
            EntityType::LinkedTransactions,
            EntityType::ManualJournals,
            EntityType::Organisations,
            EntityType::Overpayments,
            EntityType::Payments,
            EntityType::PaymentServices,
            EntityType::Prepayments,
            EntityType::PurchaseOrders,
            EntityType::Quotes,
            EntityType::Receipts,
            EntityType::RepeatingInvoices,
            EntityType::TaxRates,
            EntityType::TrackingCategories,
            EntityType::Users,
        ]
    }

    /// Accounting API entity types used for full-sync iteration.
    pub fn all() -> (r: &'static [EntityType])
        ensures
            r@ == Self::all_list(),
    {
        let r: &'static [EntityType] = &[
            EntityType::Accounts,
            EntityType::BankTransactions,
            EntityType::BankTransfers,
            EntityType::BatchPayments,
            EntityType::BrandingThemes,
            EntityType::Budgets,
            EntityType::ContactGroups,
            EntityType::Contacts,
            EntityType::CreditNotes,
            EntityType::Currencies,
            EntityType::ExpenseClaims,
            EntityType::Invoices,
            EntityType::Items,
            EntityType::Journals,
            EntityType::LinkedTransactions,
            EntityType::ManualJournals,
            EntityType::Organisations,
            EntityType::Overpayments,
            EntityType::Payments,
            EntityType::PaymentServices,
            EntityType::Prepayments,
            EntityType::PurchaseOrders,
            EntityType::Quotes,
            EntityType::Receipts,
            EntityType::RepeatingInvoices,
            EntityType::TaxRates,
            EntityType::TrackingCategories,
            EntityType::Users,
        ];
        assert(r@ =~= Self::all_list());
        r
    }

    /// Master data: slowly-changing reference data that is periodically
    /// re-synced in full. Excludes `Employees`, which belongs to payroll.
    pub open spec fn master_data_list() -> Seq<EntityType> {
        seq![
            EntityType::Accounts,
            EntityType::Contacts,
            EntityType::Items,
            EntityType::TaxRates,
            EntityType::TrackingCategories,
            EntityType::Currencies,
            EntityType::Organisations,
            EntityType::Users,
            EntityType::BrandingThemes,
        ]
    }

    /// Master data: slowly-changing reference data that is periodically
    /// re-synced in full. Excludes `Employees`, which belongs to payroll.
    pub fn master_data() -> (r: &'static [EntityType])
        ensures
            r@ == Self::master_data_list(),
    {
        let r: &'static [EntityType] = &[
            EntityType::Accounts,
            EntityType::Contacts,
            EntityType::Items,
            EntityType::TaxRates,
            EntityType::TrackingCategories,
            EntityType::Currencies,
            EntityType::Organisations,
            EntityType::Users,
            EntityType::BrandingThemes,
        ];
        assert(r@ =~= Self::master_data_list());
        r
    }

    /// Entity types whose records carry an open/closed lifecycle status, so a
    /// rolling re-sync must revisit them to catch status transitions.
    pub open spec fn open_status_list() -> Seq<EntityType> {
        seq![
            EntityType::Invoices,
            EntityType::Bills,
        ]
    }

    /// Entity types whose records carry an open/closed lifecycle status, so a
    /// rolling re-sync must revisit them to catch status transitions.
    pub fn open_status() -> (r: &'static [EntityType])
        ensures
            r@ == Self::open_status_list(),
    {
        let r: &'static [EntityType] = &[
            EntityType::Invoices,
            EntityType::Bills,
        ];
        assert(r@ =~= Self::open_status_list());
        r
    }

    /// Whether this entity is a Xero `Reports/*` resource: a parameterised
    /// point-in-time snapshot rather than an incrementally synced list.
    pub open spec fn spec_is_report(self) -> bool {
        match self {
            EntityType::ReportProfitAndLoss
            | EntityType::ReportBalanceSheet
            | EntityType::ReportTrialBalance
            | EntityType::ReportAgedReceivablesByContact
            | EntityType::ReportAgedPayablesByContact
            | EntityType::ReportBankSummary
            | EntityType::ReportBudgetSummary
            | EntityType::ReportExecutiveSummary => true,
            _ => false,
        }
    }

    /// Whether this entity is a Xero `Reports/*` resource: a parameterised
    /// point-in-time snapshot rather than an incrementally synced list.
    pub fn is_report(&self) -> (r: bool)
        ensures
            r == self.spec_is_report(),
    {
        match self {
            EntityType::ReportProfitAndLoss
            | EntityType::ReportBalanceSheet
            | EntityType::ReportTrialBalance
            | EntityType::ReportAgedReceivablesByContact
            | EntityType::ReportAgedPayablesByContact
            | EntityType::ReportBankSummary
            | EntityType::ReportBudgetSummary
            | EntityType::ReportExecutiveSummary => true,
            _ => false,
        }
    }

    /// Whether this entity supports a Xero `where=Date>=...` business-date
    /// window, so that it can be pulled in date chunks.
    pub open spec fn spec_is_date_windowable(self) -> bool {
        match self {
            EntityType::Invoices
            | EntityType::Bills
            | EntityType::CreditNotes
            | EntityType::Quotes
            | EntityType::Payments
            | EntityType::Overpayments
            | EntityType::Prepayments
            | EntityType::BankTransactions
            | EntityType::BankTransfers
            | EntityType::ManualJournals
            | EntityType::PurchaseOrders
            | EntityType::Receipts
            | EntityType::BatchPayments => true,
            _ => false,
        }
    }

    /// Whether this entity supports a Xero `where=Date>=...` business-date
    /// window, so that it can be pulled in date chunks.
    pub fn is_date_windowable(&self) -> (r: bool)
        ensures
            r == self.spec_is_date_windowable(),
    {
        match self {
            EntityType::Invoices
            | EntityType::Bills
            | EntityType::CreditNotes
            | EntityType::Quotes
            | EntityType::Payments
            | EntityType::Overpayments
            | EntityType::Prepayments
            | EntityType::BankTransactions
            | EntityType::BankTransfers
            | EntityType::ManualJournals
            | EntityType::PurchaseOrders
            | EntityType::Receipts
            | EntityType::BatchPayments => true,
            _ => false,
        }
    }

    /// Whether this entity is part of [`EntityType::master_data`].
    pub fn is_master(&self) -> (r: bool)
        ensures
            r == Self::master_data_list().contains(*self),
    {
        let list = Self::master_data();
        let mut i: usize = 0;
        while i < list.len()
            invariant
                i <= list.len(),
                list@ == Self::master_data_list(),
                forall|j: int| 0 <= j < i ==> list@[j] != *self,
            decreases list.len() - i,
        {
            if list[i] == *self {
                assert(list@[i as int] == *self);
                return true;
            }
            i += 1;
        }
        false
    }

    /// The entity whose [`EntityType::as_str`] key is `s`.
    pub fn from_str(s: &str) -> (r: Result<EntityType, Error>)
        ensures
            match r {
                Ok(e) => e.name() == s@,
                Err(e) => {
                    &&& e@ == ErrorView::Config("unknown entity: "@ + s@)
                    &&& forall|e: EntityType| #[trigger] e.name() != s@
                },
            },
    {
        if same(s, "accounts") {
            Ok(EntityType::Accounts)
        } else if same(s, "bank_transactions") {
            Ok(EntityType::BankTransactions)
        } else if same(s, "bank_transfers") {
            Ok(EntityType::BankTransfers)
        } else if same(s, "batch_payments") {
            Ok(EntityType::BatchPayments)
        } else if same(s, "bills") {
            Ok(EntityType::Bills)
        } else if same(s, "branding_themes") {
            Ok(EntityType::BrandingThemes)
        } else if same(s, "budgets") {
            Ok(EntityType::Budgets)
        } else if same(s, "contact_groups") {
            Ok(EntityType::ContactGroups)
        } else if same(s, "contacts") {
            Ok(EntityType::Contacts)
        } else if same(s, "credit_notes") {
            Ok(EntityType::CreditNotes)
        } else if same(s, "currencies") {
            Ok(EntityType::Currencies)
        } else if same(s, "employees") {
            Ok(EntityType::Employees)
        } else if same(s, "expense_claims") {
            Ok(EntityType::ExpenseClaims)
        } else if same(s, "invoices") {
            Ok(EntityType::Invoices)
        } else if same(s, "items") {
            Ok(EntityType::Items)
        } else if same(s, "journals") {
            Ok(EntityType::Journals)
        } else if same(s, "linked_transactions") {
            Ok(EntityType::LinkedTransactions)
        } else if same(s, "manual_journals") {
            Ok(EntityType::ManualJournals)
        } else if same(s, "organisations") {
            Ok(EntityType::Organisations)
        } else if same(s, "overpayments") {
            Ok(EntityType::Overpayments)
        } else if same(s, "payments") {
            Ok(EntityType::Payments)
        } else if same(s, "payment_services") {
            Ok(EntityType::PaymentServices)
        } else if same(s, "prepayments") {
            Ok(EntityType::Prepayments)
        } else if same(s, "purchase_orders") {
            Ok(EntityType::PurchaseOrders)
        } else if same(s, "quotes") {
            Ok(EntityType::Quotes)
        } else if same(s, "receipts") {
            Ok(EntityType::Receipts)
        } else if same(s, "repeating_invoices") {
            Ok(EntityType::RepeatingInvoices)
        } else if same(s, "tax_rates") {
            Ok(EntityType::TaxRates)
        } else if same(s, "tracking_categories") {
            Ok(EntityType::TrackingCategories)
        } else if same(s, "users") {
            Ok(EntityType::Users)
        } else if same(s, "report_profit_and_loss") {
            Ok(EntityType::ReportProfitAndLoss)
        } else if same(s, "report_balance_sheet") {
            Ok(EntityType::ReportBalanceSheet)
        } else if same(s, "report_trial_balance") {
            Ok(EntityType::ReportTrialBalance)
        } else if same(s, "report_aged_receivables_by_contact") {
            Ok(EntityType::ReportAgedReceivablesByContact)
        } else if same(s, "report_aged_payables_by_contact") {
            Ok(EntityType::ReportAgedPayablesByContact)
        } else if same(s, "report_bank_summary") {
            Ok(EntityType::ReportBankSummary)
        } else if same(s, "report_budget_summary") {
            Ok(EntityType::ReportBudgetSummary)
        } else if same(s, "report_executive_summary") {
            Ok(EntityType::ReportExecutiveSummary)
        } else {
            Err(Error::Config("unknown entity: ".to_owned().concat(s)))
        }
    }
}

impl std::str::FromStr for EntityType {
    type Err = Error;

    fn from_str(s: &str) -> Result<EntityType, Error> {
        EntityType::from_str(s)
    }
}

/// No two entities share a key: the key determines the entity.
pub proof fn entity_name_is_injective(a: EntityType, b: EntityType)
    requires
        a.name() == b.name(),
    ensures
        a == b,
{
    reveal_strlit("accounts");
    reveal_strlit("bank_transactions");
    reveal_strlit("bank_transfers");
    reveal_strlit("batch_payments");
    reveal_strlit("bills");
    reveal_strlit("branding_themes");
    reveal_strlit("budgets");
    reveal_strlit("contact_groups");
    reveal_strlit("contacts");
    reveal_strlit("credit_notes");
    reveal_strlit("currencies");
    reveal_strlit("employees");
    reveal_strlit("expense_claims");
    reveal_strlit("invoices");
    reveal_strlit("items");
    reveal_strlit("journals");
    reveal_strlit("linked_transactions");
    reveal_strlit("manual_journals");
    reveal_strlit("organisations");
    reveal_strlit("overpayments");
    reveal_strlit("payments");
    reveal_strlit("payment_services");
    reveal_strlit("prepayments");
    reveal_strlit("purchase_orders");
    reveal_strlit("quotes");
    reveal_strlit("receipts");
    reveal_strlit("repeating_invoices");
    reveal_strlit("tax_rates");
    reveal_strlit("tracking_categories");
    reveal_strlit("users");
    reveal_strlit("report_profit_and_loss");
    reveal_strlit("report_balance_sheet");
    reveal_strlit("report_trial_balance");
    reveal_strlit("report_aged_receivables_by_contact");
    reveal_strlit("report_aged_payables_by_contact");
    reveal_strlit("report_bank_summary");
    reveal_strlit("report_budget_summary");
    reveal_strlit("report_executive_summary");
    let n = a.name();
    let m = b.name();
    assert(n.len() == m.len());
    assert(n[0] == m[0] && n[2] == m[2] && n[4] == m[4] && n[7] == m[7]);
}

/// The entities of a full sync are all that there are but the reports, the
/// employees (payroll) and the bills (invoices by another name); each is listed
/// once.
#[verifier::rlimit(40)]
pub proof fn full_sync_leaves_out_reports(entity: EntityType)
    ensures
        EntityType::all_list().contains(entity) <==> !EntityType::all_reports_list().contains(
            entity,
        ) && entity != EntityType::Employees && entity != EntityType::Bills,
        EntityType::all_list().no_duplicates(),
        EntityType::all_reports_list().no_duplicates(),
{
    let all = EntityType::all_list();
    let reports = EntityType::all_reports_list();
    assert(all[0] == EntityType::Accounts && all[1] == EntityType::BankTransactions && all[2]
        == EntityType::BankTransfers && all[3] == EntityType::BatchPayments && all[4]
        == EntityType::BrandingThemes && all[5] == EntityType::Budgets && all[6]
        == EntityType::ContactGroups && all[7] == EntityType::Contacts && all[8]
        == EntityType::CreditNotes && all[9] == EntityType::Currencies);
    assert(all[10] == EntityType::ExpenseClaims && all[11] == EntityType::Invoices && all[12]
        == EntityType::Items && all[13] == EntityType::Journals && all[14]
        == EntityType::LinkedTransactions && all[15] == EntityType::ManualJournals && all[16]
        == EntityType::Organisations && all[17] == EntityType::Overpayments && all[18]
        == EntityType::Payments && all[19] == EntityType::PaymentServices);
    assert(all[20] == EntityType::Prepayments && all[21] == EntityType::PurchaseOrders && all[22]
        == EntityType::Quotes && all[23] == EntityType::Receipts && all[24]
        == EntityType::RepeatingInvoices && all[25] == EntityType::TaxRates && all[26]
        == EntityType::TrackingCategories && all[27] == EntityType::Users);
    assert(reports[0] == EntityType::ReportProfitAndLoss && reports[1]
        == EntityType::ReportBalanceSheet && reports[2] == EntityType::ReportTrialBalance
        && reports[3] == EntityType::ReportAgedReceivablesByContact && reports[4]
        == EntityType::ReportAgedPayablesByContact && reports[5] == EntityType::ReportBankSummary
        && reports[6] == EntityType::ReportBudgetSummary && reports[7]
        == EntityType::ReportExecutiveSummary);
}

/// Reports are told apart from lists of records in four ways that agree: they are
/// listed among the reports, they lie below `Reports/`, their keys begin with
/// `report_`, and their records are named by `ReportID`.
#[verifier::rlimit(40)]
pub proof fn reports_are_recognised(entity: EntityType)
    ensures
        entity.spec_is_report() <==> EntityType::all_reports_list().contains(entity),
        entity.spec_is_report() <==> "Reports/"@.is_prefix_of(entity.path()),
        entity.spec_is_report() <==> "report_"@.is_prefix_of(entity.name()),
        entity.spec_is_report() <==> entity.id_field_name() == "ReportID"@,
        entity.spec_is_report() <==> entity == EntityType::ReportProfitAndLoss || entity
            == EntityType::ReportBalanceSheet || entity == EntityType::ReportTrialBalance || entity
            == EntityType::ReportAgedReceivablesByContact || entity
            == EntityType::ReportAgedPayablesByContact || entity == EntityType::ReportBankSummary
            || entity == EntityType::ReportBudgetSummary || entity
            == EntityType::ReportExecutiveSummary,
{
    full_sync_leaves_out_reports(entity);
    reveal_strlit("Reports/");
    reveal_strlit("report_");
    reveal_strlit("ReportID");
    reveal_strlit("Accounts");
    reveal_strlit("BankTransactions");
    reveal_strlit("BankTransfers");
    reveal_strlit("BatchPayments");
    reveal_strlit("BrandingThemes");
    reveal_strlit("Budgets");
    reveal_strlit("ContactGroups");
    reveal_strlit("Contacts");
    reveal_strlit("CreditNotes");
    reveal_strlit("Currencies");
    reveal_strlit("Employees");
    reveal_strlit("ExpenseClaims");
    reveal_strlit("Invoices");
    reveal_strlit("Items");
    reveal_strlit("Journals");
    reveal_strlit("LinkedTransactions");
    reveal_strlit("ManualJournals");
    reveal_strlit("Organisation");
    reveal_strlit("Overpayments");
    reveal_strlit("PaymentServices");
    reveal_strlit("Payments");
    reveal_strlit("Prepayments");
    reveal_strlit("PurchaseOrders");
    reveal_strlit("Quotes");
    reveal_strlit("Receipts");
    reveal_strlit("RepeatingInvoices");
    reveal_strlit("Reports/AgedPayablesByContact");
    reveal_strlit("Reports/AgedReceivablesByContact");
    reveal_strlit("Reports/BalanceSheet");
    reveal_strlit("Reports/BankSummary");
    reveal_strlit("Reports/BudgetSummary");
    reveal_strlit("Reports/ExecutiveSummary");
    reveal_strlit("Reports/ProfitAndLoss");
    reveal_strlit("Reports/TrialBalance");
    reveal_strlit("TaxRates");
    reveal_strlit("TrackingCategories");
    reveal_strlit("Users");
    reveal_strlit("accounts");
    reveal_strlit("bank_transactions");
    reveal_strlit("bank_transfers");
    reveal_strlit("batch_payments");
    reveal_strlit("bills");
    reveal_strlit("branding_themes");
    reveal_strlit("budgets");
    reveal_strlit("contact_groups");
    reveal_strlit("contacts");
    reveal_strlit("credit_notes");
    reveal_strlit("currencies");
    reveal_strlit("employees");
    reveal_strlit("expense_claims");
    reveal_strlit("invoices");
    reveal_strlit("items");
    reveal_strlit("journals");
    reveal_strlit("linked_transactions");
    reveal_strlit("manual_journals");
    reveal_strlit("organisations");
    reveal_strlit("overpayments");
    reveal_strlit("payment_services");
    reveal_strlit("payments");
    reveal_strlit("prepayments");
    reveal_strlit("purchase_orders");
    reveal_strlit("quotes");
    reveal_strlit("receipts");
    reveal_strlit("repeating_invoices");
    reveal_strlit("report_aged_payables_by_contact");
    reveal_strlit("report_aged_receivables_by_contact");
    reveal_strlit("report_balance_sheet");
    reveal_strlit("report_bank_summary");
    reveal_strlit("report_budget_summary");
    reveal_strlit("report_executive_summary");
    reveal_strlit("report_profit_and_loss");
    reveal_strlit("report_trial_balance");
    reveal_strlit("tax_rates");
    reveal_strlit("tracking_categories");
    reveal_strlit("users");
    reveal_strlit("AccountID");
    reveal_strlit("BankTransactionID");
    reveal_strlit("BankTransferID");
    reveal_strlit("BatchPaymentID");
    reveal_strlit("BrandingThemeID");
    reveal_strlit("BudgetID");
    reveal_strlit("ContactGroupID");
    reveal_strlit("ContactID");
    reveal_strlit("CreditNoteID");
    reveal_strlit("CurrencyCode");
    reveal_strlit("EmployeeID");
    reveal_strlit("ExpenseClaimID");
    reveal_strlit("InvoiceID");
    reveal_strlit("ItemID");
    reveal_strlit("JournalID");
    reveal_strlit("LinkedTransactionID");
    reveal_strlit("ManualJournalID");
    reveal_strlit("OrganisationID");
    reveal_strlit("OverpaymentID");
    reveal_strlit("PaymentID");
    reveal_strlit("PaymentServiceID");
    reveal_strlit("PrepaymentID");
    reveal_strlit("PurchaseOrderID");
    reveal_strlit("QuoteID");
    reveal_strlit("ReceiptID");
    reveal_strlit("RepeatingInvoiceID");
    reveal_strlit("TaxType");
    reveal_strlit("TrackingCategoryID");
    reveal_strlit("UserID");
    let p = entity.path();
    let n = entity.name();
    if "Reports/"@.is_prefix_of(p) {
        let start = p.subrange(0, 8);
        assert(start[2] == p[2] && start[7] == p[7]);
    }
    if "report_"@.is_prefix_of(n) {
        let start = n.subrange(0, 7);
        assert(start[2] == n[2] && start[6] == n[6] && start[0] == n[0]);
    }
    if entity.spec_is_report() {
        assert(p.subrange(0, 8) =~= "Reports/"@);
        assert(n.subrange(0, 7) =~= "report_"@);
    } else {
        let id = entity.id_field_name();
        if id == "ReportID"@ {
            assert(id[2] == 'p' && id[5] == 't' && id.len() == 8);
        }
    }
    let reports = EntityType::all_reports_list();
    assert(reports[0] == EntityType::ReportProfitAndLoss && reports[1]
        == EntityType::ReportBalanceSheet && reports[2] == EntityType::ReportTrialBalance
        && reports[3] == EntityType::ReportAgedReceivablesByContact && reports[4]
        == EntityType::ReportAgedPayablesByContact && reports[5] == EntityType::ReportBankSummary
        && reports[6] == EntityType::ReportBudgetSummary && reports[7]
        == EntityType::ReportExecutiveSummary);
}

/// Whether a key, from place `j`, spells a path, from place `i`, in snake case: in
/// lower case, with an underscore before each capital but the first.
pub open spec fn spells(name: Seq<char>, j: int, path: Seq<char>, i: int, first: bool) -> bool
    decreases path.len() - i,
{
    if i >= path.len() {
        j == name.len()
    } else if 'A' <= path[i] && path[i] <= 'Z' && !first {
        &&& j + 1 < name.len()
        &&& name[j] == '_'
        &&& name[j + 1] == lower_char(path[i])
        &&& spells(name, j + 2, path, i + 1, false)
    } else {
        &&& j < name.len()
        &&& name[j] == lower_char(path[i])
        &&& spells(name, j + 1, path, i + 1, false)
    }
}

/// An entity's key is its path in snake case, a report's the name of the report
/// after `report_`. Bills have a key of their own and the path of invoices, and
/// the key of the one organisation is a plural.
#[verifier::rlimit(40)]
pub proof fn keys_spell_paths(entity: EntityType)
    ensures
        entity.spec_is_report() ==> "report_"@.is_prefix_of(entity.name()) && spells(
            entity.name(),
            7,
            entity.path(),
            8,
            true,
        ),
        !entity.spec_is_report() && entity != EntityType::Bills && entity
            != EntityType::Organisations ==> spells(entity.name(), 0, entity.path(), 0, true),
        EntityType::Bills.path() == EntityType::Invoices.path(),
        EntityType::Bills.name() == "bills"@,
        EntityType::Organisations.name().drop_last() == lower(EntityType::Organisations.path()),
        EntityType::Organisations.name().last() == 's',
{
    reports_are_recognised(entity);
    reveal_with_fuel(spells, 27);
    match entity {
        EntityType::Accounts => {
            reveal_strlit("Accounts");
            reveal_strlit("accounts");
        },
        EntityType::BankTransactions => {
            reveal_strlit("BankTransactions");
            reveal_strlit("bank_transactions");
        },
        EntityType::BankTransfers => {
            reveal_strlit("BankTransfers");
            reveal_strlit("bank_transfers");
        },
        EntityType::BatchPayments => {
            reveal_strlit("BatchPayments");
            reveal_strlit("batch_payments");
        },
        EntityType::Bills => {},
        EntityType::BrandingThemes => {
            reveal_strlit("BrandingThemes");
            reveal_strlit("branding_themes");
        },
        EntityType::Budgets => {
            reveal_strlit("Budgets");
            reveal_strlit("budgets");
        },
        EntityType::ContactGroups => {
            reveal_strlit("ContactGroups");
            reveal_strlit("contact_groups");
        },
        EntityType::Contacts => {
            reveal_strlit("Contacts");
            reveal_strlit("contacts");
        },
        EntityType::CreditNotes => {
            reveal_strlit("CreditNotes");
            reveal_strlit("credit_notes");
        },
        EntityType::Currencies => {
            reveal_strlit("Currencies");
            reveal_strlit("currencies");
        },
        EntityType::Employees => {
            reveal_strlit("Employees");
            reveal_strlit("employees");
        },
        EntityType::ExpenseClaims => {
            reveal_strlit("ExpenseClaims");
            reveal_strlit("expense_claims");
        },
        EntityType::Invoices => {
            reveal_strlit("Invoices");
            reveal_strlit("invoices");
        },
        EntityType::Items => {
            reveal_strlit("Items");
            reveal_strlit("items");
        },
        EntityType::Journals => {
            reveal_strlit("Journals");
            reveal_strlit("journals");
        },
        EntityType::LinkedTransactions => {
            reveal_strlit("LinkedTransactions");
            reveal_strlit("linked_transactions");
        },
        EntityType::ManualJournals => {
            reveal_strlit("ManualJournals");
            reveal_strlit("manual_journals");
        },
        EntityType::Organisations => {
            reveal_strlit("Organisation");
            reveal_strlit("organisations");
        },
        EntityType::Overpayments => {
            reveal_strlit("Overpayments");
            reveal_strlit("overpayments");
        },
        EntityType::Payments => {
            reveal_strlit("Payments");
            reveal_strlit("payments");
        },
        EntityType::PaymentServices => {
            reveal_strlit("PaymentServices");
            reveal_strlit("payment_services");
        },
        EntityType::Prepayments => {
            reveal_strlit("Prepayments");
            reveal_strlit("prepayments");
        },
        EntityType::PurchaseOrders => {
            reveal_strlit("PurchaseOrders");
            reveal_strlit("purchase_orders");
        },
        EntityType::Quotes => {
            reveal_strlit("Quotes");
            reveal_strlit("quotes");
        },
        EntityType::Receipts => {
            reveal_strlit("Receipts");
            reveal_strlit("receipts");
        },
        EntityType::RepeatingInvoices => {
            reveal_strlit("RepeatingInvoices");
            reveal_strlit("repeating_invoices");
        },
        EntityType::TaxRates => {
            reveal_strlit("TaxRates");
            reveal_strlit("tax_rates");
        },
        EntityType::TrackingCategories => {
            reveal_strlit("TrackingCategories");
            reveal_strlit("tracking_categories");
        },
        EntityType::Users => {
            reveal_strlit("Users");
            reveal_strlit("users");
        },
        EntityType::ReportProfitAndLoss => {
            reveal_strlit("Reports/ProfitAndLoss");
            reveal_strlit("report_profit_and_loss");
        },
        EntityType::ReportBalanceSheet => {
            reveal_strlit("Reports/BalanceSheet");
            reveal_strlit("report_balance_sheet");
        },
        EntityType::ReportTrialBalance => {
            reveal_strlit("Reports/TrialBalance");
            reveal_strlit("report_trial_balance");
        },
        EntityType::ReportAgedReceivablesByContact => {
            reveal_strlit("Reports/AgedReceivablesByContact");
            reveal_strlit("report_aged_receivables_by_contact");
        },
        EntityType::ReportAgedPayablesByContact => {
            reveal_strlit("Reports/AgedPayablesByContact");
            reveal_strlit("report_aged_payables_by_contact");
        },
        EntityType::ReportBankSummary => {
            reveal_strlit("Reports/BankSummary");
            reveal_strlit("report_bank_summary");
        },
        EntityType::ReportBudgetSummary => {
            reveal_strlit("Reports/BudgetSummary");
            reveal_strlit("report_budget_summary");
        },
        EntityType::ReportExecutiveSummary => {
            reveal_strlit("Reports/ExecutiveSummary");
            reveal_strlit("report_executive_summary");
        },
    }
    reveal_strlit("Organisation");
    reveal_strlit("organisations");
    assert(EntityType::Organisations.name().drop_last() =~= lower(
        EntityType::Organisations.path(),
    ));
}

/// A noun in the singular.
pub open spec fn singular(noun: Seq<char>) -> Seq<char> {
    if "ies"@.is_suffix_of(noun) {
        noun.take(noun.len() - 3) + "y"@
    } else if "s"@.is_suffix_of(noun) {
        noun.drop_last()
    } else {
        noun
    }
}

/// A record is named by the singular of its path and `ID`; a currency has a code in
/// place of an ID, and a tax rate is named by its type.
#[verifier::rlimit(40)]
pub proof fn id_fields_follow_paths(entity: EntityType)
    ensures
        !entity.spec_is_report() && entity != EntityType::Currencies && entity
            != EntityType::TaxRates ==> entity.id_field_name() == singular(entity.path()) + "ID"@,
        entity == EntityType::Currencies ==> entity.id_field_name() == singular(entity.path())
            + "Code"@,
        entity == EntityType::TaxRates ==> entity.id_field_name() == "TaxType"@,
        entity.spec_is_report() ==> entity.id_field_name() == "ReportID"@,
{
    reveal_strlit("ies");
    reveal_strlit("y");
    reveal_strlit("s");
    reveal_strlit("ID");
    reveal_strlit("Code");
    let p = entity.path();
    let n = p.len() as int;
    match entity {
        EntityType::Accounts => {
            reveal_strlit("Accounts");
            reveal_strlit("AccountID");
            assert(p.subrange(n - 3, n)[1] != 'e' || p.subrange(n - 3, n)[0] != 'i');
            assert(p.subrange(n - 1, n) =~= "s"@);
            assert(entity.id_field_name() =~= p.drop_last() + "ID"@);
        },
        EntityType::BankTransactions => {
            reveal_strlit("BankTransactions");
            reveal_strlit("BankTransactionID");
            assert(p.subrange(n - 3, n)[1] != 'e' || p.subrange(n - 3, n)[0] != 'i');
            assert(p.subrange(n - 1, n) =~= "s"@);
            assert(entity.id_field_name() =~= p.drop_last() + "ID"@);
        },
        EntityType::BankTransfers => {
            reveal_strlit("BankTransfers");
            reveal_strlit("BankTransferID");
            assert(p.subrange(n - 3, n)[1] != 'e' || p.subrange(n - 3, n)[0] != 'i');
            assert(p.subrange(n - 1, n) =~= "s"@);
            assert(entity.id_field_name() =~= p.drop_last() + "ID"@);
        },
        EntityType::BatchPayments => {
            reveal_strlit("BatchPayments");
            reveal_strlit("BatchPaymentID");
            assert(p.subrange(n - 3, n)[1] != 'e' || p.subrange(n - 3, n)[0] != 'i');
            assert(p.subrange(n - 1, n) =~= "s"@);
            assert(entity.id_field_name() =~= p.drop_last() + "ID"@);
        },
        EntityType::Bills => {
            reveal_strlit("Invoices");
            reveal_strlit("InvoiceID");
            assert(p.subrange(n - 3, n)[1] != 'e' || p.subrange(n - 3, n)[0] != 'i');
            assert(p.subrange(n - 1, n) =~= "s"@);
            assert(entity.id_field_name() =~= p.drop_last() + "ID"@);
        },
        EntityType::BrandingThemes => {
            reveal_strlit("BrandingThemes");
            reveal_strlit("BrandingThemeID");
            assert(p.subrange(n - 3, n)[1] != 'e' || p.subrange(n - 3, n)[0] != 'i');
            assert(p.subrange(n - 1, n) =~= "s"@);
            assert(entity.id_field_name() =~= p.drop_last() + "ID"@);
        },
        EntityType::Budgets => {
            reveal_strlit("Budgets");
            reveal_strlit("BudgetID");
            assert(p.subrange(n - 3, n)[1] != 'e' || p.subrange(n - 3, n)[0] != 'i');
            assert(p.subrange(n - 1, n) =~= "s"@);
            assert(entity.id_field_name() =~= p.drop_last() + "ID"@);
        },
        EntityType::ContactGroups => {
            reveal_strlit("ContactGroups");
            reveal_strlit("ContactGroupID");
            assert(p.subrange(n - 3, n)[1] != 'e' || p.subrange(n - 3, n)[0] != 'i');
            assert(p.subrange(n - 1, n) =~= "s"@);
            assert(entity.id_field_name() =~= p.drop_last() + "ID"@);
        },
        EntityType::Contacts => {
            reveal_strlit("Contacts");
            reveal_strlit("ContactID");
            assert(p.subrange(n - 3, n)[1] != 'e' || p.subrange(n - 3, n)[0] != 'i');
            assert(p.subrange(n - 1, n) =~= "s"@);
            assert(entity.id_field_name() =~= p.drop_last() + "ID"@);
        },
        EntityType::CreditNotes => {
            reveal_strlit("CreditNotes");
            reveal_strlit("CreditNoteID");
            assert(p.subrange(n - 3, n)[1] != 'e' || p.subrange(n - 3, n)[0] != 'i');
            assert(p.subrange(n - 1, n) =~= "s"@);
            assert(entity.id_field_name() =~= p.drop_last() + "ID"@);
        },
        EntityType::Currencies => {
            reveal_strlit("Currencies");
            reveal_strlit("CurrencyCode");
            assert(p.subrange(n - 3, n) =~= "ies"@);
            assert(entity.id_field_name() =~= p.take(n - 3) + "y"@ + "Code"@);
        },
        EntityType::Employees => {
            reveal_strlit("Employees");
            reveal_strlit("EmployeeID");
            assert(p.subrange(n - 3, n)[1] != 'e' || p.subrange(n - 3, n)[0] != 'i');
            assert(p.subrange(n - 1, n) =~= "s"@);
            assert(entity.id_field_name() =~= p.drop_last() + "ID"@);
        },
        EntityType::ExpenseClaims => {
            reveal_strlit("ExpenseClaims");
            reveal_strlit("ExpenseClaimID");
            assert(p.subrange(n - 3, n)[1] != 'e' || p.subrange(n - 3, n)[0] != 'i');
            assert(p.subrange(n - 1, n) =~= "s"@);
            assert(entity.id_field_name() =~= p.drop_last() + "ID"@);
        },
        EntityType::Invoices => {
            reveal_strlit("Invoices");
            reveal_strlit("InvoiceID");
            assert(p.subrange(n - 3, n)[1] != 'e' || p.subrange(n - 3, n)[0] != 'i');
            assert(p.subrange(n - 1, n) =~= "s"@);
            assert(entity.id_field_name() =~= p.drop_last() + "ID"@);
        },
        EntityType::Items => {
            reveal_strlit("Items");
            reveal_strlit("ItemID");
            assert(p.subrange(n - 3, n)[1] != 'e' || p.subrange(n - 3, n)[0] != 'i');
            assert(p.subrange(n - 1, n) =~= "s"@);
            assert(entity.id_field_name() =~= p.drop_last() + "ID"@);
        },
        EntityType::Journals => {
            reveal_strlit("Journals");
            reveal_strlit("JournalID");
            assert(p.subrange(n - 3, n)[1] != 'e' || p.subrange(n - 3, n)[0] != 'i');
            assert(p.subrange(n - 1, n) =~= "s"@);
            assert(entity.id_field_name() =~= p.drop_last() + "ID"@);
        },
        EntityType::LinkedTransactions => {
            reveal_strlit("LinkedTransactions");
            reveal_strlit("LinkedTransactionID");
            assert(p.subrange(n - 3, n)[1] != 'e' || p.subrange(n - 3, n)[0] != 'i');
            assert(p.subrange(n - 1, n) =~= "s"@);
            assert(entity.id_field_name() =~= p.drop_last() + "ID"@);
        },
        EntityType::ManualJournals => {
            reveal_strlit("ManualJournals");
            reveal_strlit("ManualJournalID");
            assert(p.subrange(n - 3, n)[1] != 'e' || p.subrange(n - 3, n)[0] != 'i');
            assert(p.subrange(n - 1, n) =~= "s"@);
            assert(entity.id_field_name() =~= p.drop_last() + "ID"@);
        },
        EntityType::Organisations => {
            reveal_strlit("Organisation");
            reveal_strlit("OrganisationID");
            assert(p.subrange(n - 3, n)[2] != 's');
            assert(p.subrange(n - 1, n)[0] != 's');
            assert(entity.id_field_name() =~= p + "ID"@);
        },
        EntityType::Overpayments => {
            reveal_strlit("Overpayments");
            reveal_strlit("OverpaymentID");
            assert(p.subrange(n - 3, n)[1] != 'e' || p.subrange(n - 3, n)[0] != 'i');
            assert(p.subrange(n - 1, n) =~= "s"@);
            assert(entity.id_field_name() =~= p.drop_last() + "ID"@);
        },
        EntityType::Payments => {
            reveal_strlit("Payments");
            reveal_strlit("PaymentID");
            assert(p.subrange(n - 3, n)[1] != 'e' || p.subrange(n - 3, n)[0] != 'i');
            assert(p.subrange(n - 1, n) =~= "s"@);
            assert(entity.id_field_name() =~= p.drop_last() + "ID"@);
        },
        EntityType::PaymentServices => {
            reveal_strlit("PaymentServices");
            reveal_strlit("PaymentServiceID");
            assert(p.subrange(n - 3, n)[1] != 'e' || p.subrange(n - 3, n)[0] != 'i');
            assert(p.subrange(n - 1, n) =~= "s"@);
            assert(entity.id_field_name() =~= p.drop_last() + "ID"@);
        },
        EntityType::Prepayments => {
            reveal_strlit("Prepayments");
            reveal_strlit("PrepaymentID");
            assert(p.subrange(n - 3, n)[1] != 'e' || p.subrange(n - 3, n)[0] != 'i');
            assert(p.subrange(n - 1, n) =~= "s"@);
            assert(entity.id_field_name() =~= p.drop_last() + "ID"@);
        },
        EntityType::PurchaseOrders => {
            reveal_strlit("PurchaseOrders");
            reveal_strlit("PurchaseOrderID");
            assert(p.subrange(n - 3, n)[1] != 'e' || p.subrange(n - 3, n)[0] != 'i');
            assert(p.subrange(n - 1, n) =~= "s"@);
            assert(entity.id_field_name() =~= p.drop_last() + "ID"@);
        },
        EntityType::Quotes => {
            reveal_strlit("Quotes");
            reveal_strlit("QuoteID");
            assert(p.subrange(n - 3, n)[1] != 'e' || p.subrange(n - 3, n)[0] != 'i');
            assert(p.subrange(n - 1, n) =~= "s"@);
            assert(entity.id_field_name() =~= p.drop_last() + "ID"@);
        },
        EntityType::Receipts => {
            reveal_strlit("Receipts");
            reveal_strlit("ReceiptID");
            assert(p.subrange(n - 3, n)[1] != 'e' || p.subrange(n - 3, n)[0] != 'i');
            assert(p.subrange(n - 1, n) =~= "s"@);
            assert(entity.id_field_name() =~= p.drop_last() + "ID"@);
        },
        EntityType::RepeatingInvoices => {
            reveal_strlit("RepeatingInvoices");
            reveal_strlit("RepeatingInvoiceID");
            assert(p.subrange(n - 3, n)[1] != 'e' || p.subrange(n - 3, n)[0] != 'i');
            assert(p.subrange(n - 1, n) =~= "s"@);
            assert(entity.id_field_name() =~= p.drop_last() + "ID"@);
        },
        EntityType::TrackingCategories => {
            reveal_strlit("TrackingCategories");
            reveal_strlit("TrackingCategoryID");
            assert(p.subrange(n - 3, n) =~= "ies"@);
            assert(entity.id_field_name() =~= p.take(n - 3) + "y"@ + "ID"@);
        },
        EntityType::Users => {
            reveal_strlit("Users");
            reveal_strlit("UserID");
            assert(p.subrange(n - 3, n)[1] != 'e' || p.subrange(n - 3, n)[0] != 'i');
            assert(p.subrange(n - 1, n) =~= "s"@);
            assert(entity.id_field_name() =~= p.drop_last() + "ID"@);
        },
        _ => {},
    }
}

/// Two entities share a path only if they are invoices and bills.
#[verifier::rlimit(40)]
pub proof fn paths_tell_entities_apart(a: EntityType, b: EntityType)
    requires
        a.path() == b.path(),
    ensures
        a == b || (a == EntityType::Invoices && b == EntityType::Bills) || (a == EntityType::Bills
            && b == EntityType::Invoices),
{
    reveal_strlit("Accounts");
    reveal_strlit("BankTransactions");
    reveal_strlit("BankTransfers");
    reveal_strlit("BatchPayments");
    reveal_strlit("BrandingThemes");
    reveal_strlit("Budgets");
    reveal_strlit("ContactGroups");
    reveal_strlit("Contacts");
    reveal_strlit("CreditNotes");
    reveal_strlit("Currencies");
    reveal_strlit("Employees");
    reveal_strlit("ExpenseClaims");
    reveal_strlit("Invoices");
    reveal_strlit("Items");
    reveal_strlit("Journals");
    reveal_strlit("LinkedTransactions");
    reveal_strlit("ManualJournals");
    reveal_strlit("Organisation");
    reveal_strlit("Overpayments");
    reveal_strlit("PaymentServices");
    reveal_strlit("Payments");
    reveal_strlit("Prepayments");
    reveal_strlit("PurchaseOrders");
    reveal_strlit("Quotes");
    reveal_strlit("Receipts");
    reveal_strlit("RepeatingInvoices");
    reveal_strlit("Reports/AgedPayablesByContact");
    reveal_strlit("Reports/AgedReceivablesByContact");
    reveal_strlit("Reports/BalanceSheet");
    reveal_strlit("Reports/BankSummary");
    reveal_strlit("Reports/BudgetSummary");
    reveal_strlit("Reports/ExecutiveSummary");
    reveal_strlit("Reports/ProfitAndLoss");
    reveal_strlit("Reports/TrialBalance");
    reveal_strlit("TaxRates");
    reveal_strlit("TrackingCategories");
    reveal_strlit("Users");
    let p = a.path();
    let q = b.path();
    assert(p.len() == q.len());
    assert(p[0] == q[0] && p[1] == q[1] && p[2] == q[2] && p[4] == q[4]);
    if p.len() > 12 {
        assert(p[8] == q[8] && p[9] == q[9] && p[12] == q[12]);
    }
}

/// Reports are synced by default in the order in which they are listed, but for the
/// two that are served per contact.
pub proof fn default_reports_need_no_contact(entity: EntityType)
    ensures
        EntityType::reports_default_list() == EntityType::all_reports_list().remove(4).remove(3),
        EntityType::reports_default_list().contains(entity)
            <==> EntityType::all_reports_list().contains(entity) && entity
            != EntityType::ReportAgedReceivablesByContact && entity
            != EntityType::ReportAgedPayablesByContact,
{
    reports_are_recognised(entity);
    let all = EntityType::all_reports_list();
    let d = EntityType::reports_default_list();
    assert(d =~= all.remove(4).remove(3));
    assert(d[0] == EntityType::ReportProfitAndLoss && d[1] == EntityType::ReportBalanceSheet && d[2]
        == EntityType::ReportTrialBalance && d[3] == EntityType::ReportBankSummary && d[4]
        == EntityType::ReportBudgetSummary && d[5] == EntityType::ReportExecutiveSummary);
}

/// Master data is synced in full, has no business dates and no lifecycle; what is
/// swept for open records has both.
pub proof fn master_data_has_no_dates(entity: EntityType)
    ensures
        EntityType::master_data_list().contains(entity) <==> entity == EntityType::Accounts || entity
            == EntityType::Contacts || entity == EntityType::Items || entity == EntityType::TaxRates
            || entity == EntityType::TrackingCategories || entity == EntityType::Currencies || entity
            == EntityType::Organisations || entity == EntityType::Users || entity
            == EntityType::BrandingThemes,
        EntityType::open_status_list().contains(entity) <==> entity == EntityType::Invoices || entity
            == EntityType::Bills,
        EntityType::master_data_list().contains(entity) ==> EntityType::all_list().contains(entity)
            && !entity.spec_is_date_windowable(),
        EntityType::open_status_list().contains(entity) ==> entity.spec_is_date_windowable(),
        EntityType::master_data_list().no_duplicates(),
        EntityType::open_status_list().no_duplicates(),
{
    reports_are_recognised(entity);
    full_sync_leaves_out_reports(entity);
    let m = EntityType::master_data_list();
    assert(m[0] == EntityType::Accounts && m[1] == EntityType::Contacts && m[2]
        == EntityType::Items && m[3] == EntityType::TaxRates && m[4]
        == EntityType::TrackingCategories && m[5] == EntityType::Currencies && m[6]
        == EntityType::Organisations && m[7] == EntityType::Users && m[8]
        == EntityType::BrandingThemes);
    let o = EntityType::open_status_list();
    assert(o[0] == EntityType::Invoices && o[1] == EntityType::Bills);
}

} // verus!
