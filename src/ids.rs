use vstd::prelude::*;

verus! {

/// A character sequence holds no `:` separator.
pub open spec fn no_colon(s: Seq<char>) -> bool {
    forall|i: int| 0 <= i < s.len() ==> s[i] != ':'
}

/// Canonical `tenant:branch` text of a fully qualified branch identity.
pub open spec fn qualified_text(t: Seq<char>, b: Seq<char>) -> Seq<char> {
    t + seq![':'] + b
}

/// Identifier of a tenant (a customer); the isolation boundary.
#[derive(Debug, Clone, Eq, Hash)]
pub struct TenantId(pub String);

impl View for TenantId {
    type V = Seq<char>;

    open spec fn view(&self) -> Seq<char> {
        self.0@
    }
}

impl PartialEq for TenantId {
    fn eq(&self, o: &TenantId) -> (r: bool)
        ensures
            r == (self@ == o@),
    {
        self.0 == o.0
    }
}

impl vstd::std_specs::cmp::PartialEqSpecImpl for TenantId {
    open spec fn obeys_eq_spec() -> bool {
        true
    }

    open spec fn eq_spec(&self, o: &TenantId) -> bool {
        self@ == o@
    }
}

impl TenantId {
    pub fn new(id: &str) -> (r: TenantId)
        ensures
            r@ == id@,
    {
        TenantId(id.to_owned())
    }

    /// A fresh random identifier, `tenant_` followed by a UUID.
    pub fn generate() -> (r: TenantId)
        ensures
            r@.len() == 43,
            r@.subrange(0, 7) == "tenant_"@,
    {
        let mut s = String::from_str("tenant_");
        let u = crate::util::new_uuid_v4();
        s.append(u.as_str());
        proof {
            reveal_strlit("tenant_");
            assert(s@.subrange(0, 7) =~= "tenant_"@);
        }
        TenantId(s)
    }

    pub fn as_str(&self) -> (r: &str)
        ensures
            r@ == self@,
    {
        self.0.as_str()
    }

    pub fn eq_id(&self, o: &TenantId) -> (r: bool)
        ensures
            r == (self@ == o@),
    {
        self.0 == o.0
    }
}

/// Identifier of a branch; unique only within its tenant.
#[derive(Debug, Clone, Eq, Hash)]
pub struct BranchId(pub String);

impl View for BranchId {
    type V = Seq<char>;

    open spec fn view(&self) -> Seq<char> {
        self.0@
    }
}

impl PartialEq for BranchId {
    fn eq(&self, o: &BranchId) -> (r: bool)
        ensures
            r == (self@ == o@),
    {
        self.0 == o.0
    }
}

impl vstd::std_specs::cmp::PartialEqSpecImpl for BranchId {
    open spec fn obeys_eq_spec() -> bool {
        true
    }

    open spec fn eq_spec(&self, o: &BranchId) -> bool {
        self@ == o@
    }
}

impl BranchId {
    pub fn new(id: &str) -> (r: BranchId)
        ensures
            r@ == id@,
    {
        BranchId(id.to_owned())
    }

    /// A fresh random identifier: a hyphenated UUID.
    pub fn generate() -> (r: BranchId)
        ensures
            r@.len() == 36,
    {
        BranchId(crate::util::new_uuid_v4())
    }

    pub fn as_str(&self) -> (r: &str)
        ensures
            r@ == self@,
    {
        self.0.as_str()
    }

    pub fn eq_id(&self, o: &BranchId) -> (r: bool)
        ensures
            r == (self@ == o@),
    {
        self.0 == o.0
    }

    pub fn clone_id(&self) -> (r: BranchId)
        ensures
            r@ == self@,
    {
        BranchId(self.0.clone())
    }
}

impl TenantId {
    pub fn clone_id(&self) -> (r: TenantId)
        ensures
            r@ == self@,
    {
        TenantId(self.0.clone())
    }
}

#[derive(Debug, Clone, Copy, PartialEq, Eq, Structural)]
pub enum TenantStatus {
    Active,
    Suspended,
    Inactive,
    Trial,
}

impl TenantStatus {
    /// Reads the catalog's status column; unknown text reads as `Inactive`.
    pub fn from_db(s: &str) -> (r: TenantStatus)
        ensures
            s@ == "active"@ ==> r == TenantStatus::Active,
            s@ == "suspended"@ ==> r == TenantStatus::Suspended,
            s@ == "trial"@ ==> r == TenantStatus::Trial,
            s@ != "active"@ && s@ != "suspended"@ && s@ != "trial"@ ==> r
                == TenantStatus::Inactive,
    {
        proof {
            reveal_strlit("active");
            reveal_strlit("suspended");
            reveal_strlit("trial");
            assert("suspended"@.len() == 9);
            assert("active"@.len() == 6);
            assert("trial"@.len() == 5);
        }
        if str_eq(s, "active") {
            TenantStatus::Active
        } else if str_eq(s, "suspended") {
            TenantStatus::Suspended
        } else if str_eq(s, "trial") {
            TenantStatus::Trial
        } else {
            TenantStatus::Inactive
        }
    }
}

impl TenantStatus {
    /// The catalog's text for the status.
    pub fn to_db(&self) -> (r: &'static str)
        ensures
            *self == TenantStatus::Active ==> r@ == "active"@,
            *self == TenantStatus::Suspended ==> r@ == "suspended"@,
            *self == TenantStatus::Inactive ==> r@ == "inactive"@,
            *self == TenantStatus::Trial ==> r@ == "trial"@,
    {
        match self {
            TenantStatus::Active => "active",
            TenantStatus::Suspended => "suspended",
            TenantStatus::Inactive => "inactive",
            TenantStatus::Trial => "trial",
        }
    }
}

/// A tenant of the catalog; times are seconds since the Unix epoch.
#[derive(Debug, Clone)]
pub struct Tenant {
    pub id: TenantId,
    pub name: String,
    pub company_name: String,
    pub contact_email: String,
    pub status: TenantStatus,
    pub max_branches: usize,
    pub max_connections_per_branch: usize,
    pub rate_limit_per_sec: u32,
    pub database_schema: String,
    pub created_at: i64,
    pub updated_at: i64,
}

/// Credentials a branch holds, with their validity window in seconds since the Unix epoch.
#[derive(Debug, Clone)]
pub struct AuthToken {
    pub branch_id: BranchId,
    pub api_key: String,
    pub issued_at: i64,
    pub expires_at: i64,
}

#[derive(Debug, Clone, Copy, PartialEq, Eq, Structural)]
pub enum BranchStatus {
    Online,
    Offline,
    Syncing,
    Error,
}

impl BranchStatus {
    /// Reads the catalog's status column; unknown text reads as `Offline`.
    pub fn from_db(s: &str) -> (r: BranchStatus)
        ensures
            s@ == "online"@ ==> r == BranchStatus::Online,
            s@ == "syncing"@ ==> r == BranchStatus::Syncing,
            s@ == "error"@ ==> r == BranchStatus::Error,
            s@ != "online"@ && s@ != "syncing"@ && s@ != "error"@ ==> r
                == BranchStatus::Offline,
    {
        proof {
            reveal_strlit("online");
            reveal_strlit("syncing");
            reveal_strlit("error");
            assert("online"@.len() == 6);
            assert("syncing"@.len() == 7);
            assert("error"@.len() == 5);
        }
        if str_eq(s, "online") {
            BranchStatus::Online
        } else if str_eq(s, "syncing") {
            BranchStatus::Syncing
        } else if str_eq(s, "error") {
            BranchStatus::Error
        } else {
            BranchStatus::Offline
        }
    }
}

/// Compares two strings character by character.
pub fn str_eq(a: &str, b: &str) -> (r: bool)
    ensures
        r == (a@ == b@),
{
    let n = a.unicode_len();
    let m = b.unicode_len();
    if n != m {
        return false;
    }
    let mut i: usize = 0;
    while i < n
        invariant
            n == a@.len(),
            m == b@.len(),
            n == m,
            i <= n,
            forall|j: int| 0 <= j < i ==> a@[j] == b@[j],
        decreases n - i,
    {
        if a.get_char(i) != b.get_char(i) {
            return false;
        }
        i = i + 1;
    }
    assert(a@ =~= b@);
    true
}

/// `a` sorts strictly before `b`, character by character (the order of their UTF-8 bytes).
pub open spec fn lex_lt(a: Seq<char>, b: Seq<char>) -> bool
    decreases a.len(),
{
    if b.len() == 0 {
        false
    } else if a.len() == 0 {
        true
    } else if a[0] != b[0] {
        (a[0] as u32) < (b[0] as u32)
    } else {
        lex_lt(a.drop_first(), b.drop_first())
    }
}

/// True when `a` sorts strictly before `b`.
pub fn str_less(a: &str, b: &str) -> (r: bool)
    ensures
        r == lex_lt(a@, b@),
{
    let n = a.unicode_len();
    let m = b.unicode_len();
    let mut i: usize = 0;
    assert(a@.subrange(0, n as int) =~= a@);
    assert(b@.subrange(0, m as int) =~= b@);
    while i < n && i < m
        invariant
            n == a@.len(),
            m == b@.len(),
            i <= n,
            i <= m,
            lex_lt(a@, b@) == lex_lt(a@.subrange(i as int, n as int), b@.subrange(i as int, m as int)),
        decreases n - i,
    {
        let x = a.get_char(i);
        let y = b.get_char(i);
        let ghost sa = a@.subrange(i as int, n as int);
        let ghost sb = b@.subrange(i as int, m as int);
        assert(sa[0] == x && sb[0] == y);
        if x != y {
            return (x as u32) < (y as u32);
        }
        assert(sa.drop_first() =~= a@.subrange(i + 1, n as int));
        assert(sb.drop_first() =~= b@.subrange(i + 1, m as int));
        i = i + 1;
    }
    i < m
}

/// A tenant-qualified branch identity.
#[derive(Debug, Clone, PartialEq, Eq, Hash)]
pub struct QualifiedBranchId {
    pub tenant_id: TenantId,
    pub branch_id: BranchId,
}

impl QualifiedBranchId {
    pub fn new(tenant_id: TenantId, branch_id: BranchId) -> (r: QualifiedBranchId)
        ensures
            r.tenant_id@ == tenant_id@,
            r.branch_id@ == branch_id@,
    {
        QualifiedBranchId { tenant_id, branch_id }
    }

    /// The canonical text `tenant:branch`.
    pub fn to_string(&self) -> (r: String)
        ensures
            r@ == qualified_text(self.tenant_id@, self.branch_id@),
    {
        let mut r = self.tenant_id.0.clone();
        r.append(":");
        r.append(self.branch_id.0.as_str());
        proof {
            reveal_strlit(":");
            assert(r@ =~= qualified_text(self.tenant_id@, self.branch_id@));
        }
        r
    }

    /// Parses `tenant:branch`; the text must hold exactly one `:`.
    pub fn from_string(s: &str) -> (r: Option<QualifiedBranchId>)
        ensures
            r matches Some(q) ==> no_colon(q.tenant_id@) && no_colon(q.branch_id@) && s@
                == qualified_text(q.tenant_id@, q.branch_id@),
            r is None ==> forall|t: Seq<char>, b: Seq<char>|
                no_colon(t) && no_colon(b) ==> s@ != #[trigger] qualified_text(t, b),
    {
        let n = s.unicode_len();
        let mut first: Option<usize> = None;
        let mut i: usize = 0;
        while i < n
            invariant
                n == s@.len(),
                i <= n,
                first matches Some(k) ==> k < i && s@[k as int] == ':' && forall|j: int|
                    0 <= j < i && j != k ==> s@[j] != ':',
                first is None ==> forall|j: int| 0 <= j < i ==> s@[j] != ':',
            decreases n - i,
        {
            if s.get_char(i) == ':' {
                match first {
                    Some(k) => {
                        proof {
                            assert forall|t: Seq<char>, b: Seq<char>|
                                no_colon(t) && no_colon(b) implies s@ != #[trigger] qualified_text(
                                t,
                                b,
                            ) by {
                                if s@ == qualified_text(t, b) {
                                    if (k as int) < t.len() {
                                        assert(s@[k as int] == t[k as int]);
                                    } else if k as int > t.len() {
                                        assert(s@[k as int] == b[k - t.len() - 1]);
                                    }
                                    if (i as int) < t.len() {
                                        assert(s@[i as int] == t[i as int]);
                                    } else if i as int > t.len() {
                                        assert(s@[i as int] == b[i - t.len() - 1]);
                                    }
                                }
                            }
                        }
                        return None;
                    },
                    None => {
                        first = Some(i);
                    },
                }
            }
            i = i + 1;
        }
        match first {
            None => {
                proof {
                    assert forall|t: Seq<char>, b: Seq<char>|
                        no_colon(t) && no_colon(b) implies s@ != #[trigger] qualified_text(
                        t,
                        b,
                    ) by {
                        if s@ == qualified_text(t, b) {
                            assert(s@[t.len() as int] == ':');
                        }
                    }
                }
                None
            },
            Some(k) => {
                let t = s.substring_char(0, k);
                let b = s.substring_char(k + 1, n);
                proof {
                    assert(s@ =~= qualified_text(t@, b@));
                    assert forall|j: int| 0 <= j < t@.len() implies t@[j] != ':' by {
                        assert(t@[j] == s@[j]);
                    }
                    assert forall|j: int| 0 <= j < b@.len() implies b@[j] != ':' by {
                        assert(b@[j] == s@[j + k + 1]);
                    }
                }
                Some(QualifiedBranchId { tenant_id: TenantId(t.to_owned()), branch_id: BranchId(b.to_owned()) })
            },
        }
    }
}

} // verus!
