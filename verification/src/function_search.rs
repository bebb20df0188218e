//! The rows of the menu's function search: each Osiris function with its
//! signature, and the filter by function kind.
use vstd::prelude::*;
use crate::osiris::{c_bytes, FunctionType, Function as FunctionRecord, OsiStr};
use crate::osiris_call::{param_is_out, param_type};
use crate::table::TableColumn;
use crate::text::{chars_of, decimal_chars, push_decimal, string_from_chars};
use crate::value_type::ValueType;
use vstd::string::StringExecFns;

verus! {

broadcast use vstd::string::group_string_axioms;

/// The text before the last `/`.
pub open spec fn before_last_slash(s: Seq<char>) -> Seq<char>
    decreases s.len(),
{
    if s.len() == 0 {
        s
    } else if s.last() == '/' {
        s.drop_last()
    } else {
        before_last_slash(s.drop_last())
    }
}

/// The shown names of the parameters of a function record, over its first `n`
/// parameters: the first out parameter is the result, later out parameters
/// are marked `OUT`.
pub open spec fn signature_parts(f: FunctionRecord, n: nat) -> (Seq<Seq<char>>, Option<Seq<char>>)
    decreases n,
{
    if n == 0 {
        (Seq::empty(), None)
    } else {
        let (args, ret) = signature_parts(f, (n - 1) as nat);
        let k = n - 1;
        let name = ValueType::spec_from(param_type(f, k)).spec_name()@;
        if param_is_out(f, k) {
            if ret is None {
                (args, Some(name))
            } else {
                (args.push("OUT "@ + name), ret)
            }
        } else {
            (args.push(name), ret)
        }
    }
}

/// Every parameter appears once among the shown ones: as the result or as a
/// parameter. There is a result exactly when some parameter is an out
/// parameter, and then it is the type of the first of them; the parameters
/// marked `OUT` are the later out parameters.
pub proof fn lemma_signature_shape(f: FunctionRecord, n: nat)
    ensures
        signature_parts(f, n).0.len() + (if signature_parts(f, n).1 is Some { 1int } else { 0int }) == n,
        signature_parts(f, n).1 is Some <==> exists|k: int| 0 <= k < n && #[trigger] param_is_out(f, k),
        forall|k: int|
            0 <= k < n && #[trigger] param_is_out(f, k) && (forall|j: int| 0 <= j < k ==> !param_is_out(f, j))
                ==> signature_parts(f, n).1 == Some(ValueType::spec_from(param_type(f, k)).spec_name()@),
        (forall|k: int| 0 <= k < n ==> !#[trigger] param_is_out(f, k)) ==> signature_parts(f, n).0 == Seq::new(
            n,
            |k: int| ValueType::spec_from(param_type(f, k)).spec_name()@,
        ),
    decreases n,
{
    if n > 0 {
        let m = (n - 1) as nat;
        lemma_signature_shape(f, m);
        if signature_parts(f, n).1 is Some && !param_is_out(f, m as int) {
            let k = choose|k: int| 0 <= k < m && #[trigger] param_is_out(f, k);
            assert(0 <= k < n && param_is_out(f, k));
        }
        if signature_parts(f, m).1 is Some {
            let k = choose|k: int| 0 <= k < m && #[trigger] param_is_out(f, k);
            assert(0 <= k < n && param_is_out(f, k));
        }
        assert forall|k: int|
            0 <= k < n && #[trigger] param_is_out(f, k) && (forall|j: int| 0 <= j < k ==> !param_is_out(f, j))
                implies signature_parts(f, n).1 == Some(ValueType::spec_from(param_type(f, k)).spec_name()@) by {
            if k < m {
                assert(signature_parts(f, m).1 is Some);
            } else {
                if signature_parts(f, m).1 is Some {
                    let k2 = choose|k2: int| 0 <= k2 < m && #[trigger] param_is_out(f, k2);
                    assert(!param_is_out(f, k2));
                }
            }
        }
        if forall|k: int| 0 <= k < n ==> !#[trigger] param_is_out(f, k) {
            assert(forall|k: int| 0 <= k < m ==> !#[trigger] param_is_out(f, k));
            assert(!param_is_out(f, m as int));
            assert(signature_parts(f, n).0 =~= Seq::new(n, |k: int| ValueType::spec_from(param_type(f, k)).spec_name()@));
        }
    }
}

/// The texts of a list of strings.
pub open spec fn texts(v: Seq<String>) -> Seq<Seq<char>> {
    v.map_values(|s: String| s@)
}

/// The items joined with `", "` between them.
pub open spec fn join_comma(items: Seq<Seq<char>>) -> Seq<char>
    decreases items.len(),
{
    if items.len() == 0 {
        Seq::empty()
    } else if items.len() == 1 {
        items[0]
    } else {
        join_comma(items.drop_last()) + ", "@ + items.last()
    }
}

/// A function as the search lists it.
#[derive(Debug)]
pub struct Function {
    pub name: String,
    pub ty: FunctionType,
    pub args: Vec<String>,
    pub ret_type: Option<String>,
}

/// The text of an optional string.
pub open spec fn opt_text(s: Option<String>) -> Option<Seq<char>> {
    match s {
        Some(t) => Some(t@),
        None => None,
    }
}

fn last_slash(chars: &[char]) -> (res: usize)
    ensures
        res <= chars@.len(),
        before_last_slash(chars@) == before_last_slash(chars@.take(res as int)),
        res == 0 || chars@[res - 1] == '/',
        res == 0 ==> !chars@.contains('/'),
{
    let mut n = chars.len();
    assert(chars@.take(n as int) =~= chars@);
    while n > 0 && chars[n - 1] != '/'
        invariant
            n <= chars@.len(),
            forall|j: int| n <= j < chars@.len() ==> chars@[j] != '/',
            before_last_slash(chars@) == before_last_slash(chars@.take(n as int)),
        decreases n,
    {
        assert(chars@.take(n as int).drop_last() =~= chars@.take(n - 1));
        n = n - 1;
    }
    n
}

impl Function {
    /// The row for the function record `f` filed under `name` (`name/arity`):
    /// its name without the arity, its kind, its parameters' types and its
    /// result type.
    pub fn new(name: &OsiStr, f: &FunctionRecord) -> (res: Function)
        requires
            vstd::utf8::valid_utf8(c_bytes(name.buf@)),
            vstd::utf8::decode_utf8(c_bytes(name.buf@)).contains('/'),
            f.wf(),
        ensures
            res.name@ == before_last_slash(vstd::utf8::decode_utf8(c_bytes(name.buf@))),
            res.ty == f.ty,
            texts(res.args@) == signature_parts(*f, f.signature.params.size as nat).0,
            opt_text(res.ret_type) == signature_parts(*f, f.signature.params.size as nat).1,
    {
        let text = name.as_str();
        proof {
            vstd::utf8::encode_utf8_decode_utf8(text@);
        }
        let chars = chars_of(text);
        let cut = last_slash(chars.as_slice());
        let shown: String = if cut == 0 {
            vstd::pervasive::unreached()
        } else {
            let prefix = chars.as_slice().split_at(cut - 1).0;
            proof {
                assert(chars@.take(cut as int).last() == '/');
                assert(chars@.take(cut as int).drop_last() =~= prefix@);
            }
            string_from_chars(prefix)
        };
        let params = f.signature.params.iter();
        let mut args: Vec<String> = Vec::new();
        let mut ret_type: Option<String> = None;
        let mut k: usize = 0;
        while k < params.len()
            invariant
                f.wf(),
                params@.len() == f.signature.params.size,
                forall|j: int| 0 <= j < params@.len() ==> *params@[j] == f.signature.params.nodes@[#[trigger] f.signature.params.item_nodes()[j]].item,
                k <= params@.len(),
                texts(args@) == signature_parts(*f, k as nat).0,
                opt_text(ret_type) == signature_parts(*f, k as nat).1,
            decreases params@.len() - k,
        {
            let ty_name = ValueType::from(params[k].ty).name();
            assert(param_type(*f, k as int) == params@[k as int].ty);
            if f.signature.out_param_list.is_out_param(k) {
                if ret_type.is_none() {
                    ret_type = Some(String::from_str(ty_name));
                } else {
                    let mut t = String::from_str("OUT ");
                    t.append(ty_name);
                    args.push(t);
                    assert(texts(args@) =~= signature_parts(*f, k as nat + 1).0);
                }
            } else {
                args.push(String::from_str(ty_name));
                assert(texts(args@) =~= signature_parts(*f, k as nat + 1).0);
            }
            k = k + 1;
        }
        Function { name: shown, ty: f.ty, args, ret_type }
    }

    /// The signature as shown: `name(arg, ...)`, followed by ` -> result` for
    /// a function with a result.
    pub open spec fn spec_signature(&self) -> Seq<char> {
        let base = self.name@ + "("@ + join_comma(texts(self.args@)) + ")"@;
        match self.ret_type {
            Some(r) => base + " -> "@ + r@,
            None => base,
        }
    }

    pub fn signature(&self) -> (res: String)
        ensures
            res@ == self.spec_signature(),
    {
        let mut s = String::from_str(self.name.as_str());
        s.append("(");
        let mut k: usize = 0;
        let ghost start = s@;
        while k < self.args.len()
            invariant
                k <= self.args@.len(),
                s@ == start + join_comma(texts(self.args@).take(k as int)),
            decreases self.args@.len() - k,
        {
            assert(texts(self.args@).take(k + 1).drop_last() =~= texts(self.args@).take(k as int));
            if k > 0 {
                s.append(", ");
            }
            s.append(self.args[k].as_str());
            k = k + 1;
            proof {
                let t = texts(self.args@).take(k as int);
                if k == 1 {
                    assert(join_comma(texts(self.args@).take(0)) == Seq::<char>::empty());
                    assert(s@ =~= start + join_comma(t));
                } else {
                    assert(s@ =~= start + join_comma(t));
                }
            }
        }
        assert(texts(self.args@).take(k as int) =~= texts(self.args@));
        s.append(")");
        match &self.ret_type {
            Some(r) => {
                s.append(" -> ");
                s.append(r.as_str());
            },
            None => {},
        }
        s
    }
}

impl Function {
    /// The columns of the function table: the signature and the kind, both
    /// shown and searched.
    pub fn columns() -> (res: Vec<TableColumn>)
        ensures
            res@.len() == 2,
            res@[0].name@ == "Signature"@ && res@[0].visible && res@[0].included_in_search,
            res@[1].name@ == "Type"@ && res@[1].visible && res@[1].included_in_search,
    {
        let mut res: Vec<TableColumn> = Vec::new();
        res.push(TableColumn::new("Signature", true, true));
        res.push(TableColumn::new("Type", true, true));
        res
    }

    /// The text of column `i`, as the table shows and searches it: the
    /// signature, or the kind's name.
    pub fn column_text(&self, i: usize) -> (res: String)
        requires
            i < 2,
        ensures
            i == 0 ==> res@ == self.spec_signature(),
            i == 1 ==> res@ == self.ty.spec_display_name()@,
    {
        if i == 0 {
            self.signature()
        } else {
            String::from_str(self.ty.display_name())
        }
    }

    /// What column `i` sorts by: the name (without the parameters), or the
    /// kind's name.
    pub fn sort_key(&self, i: usize) -> (res: String)
        requires
            i < 2,
        ensures
            i == 0 ==> res@ == self.name@,
            i == 1 ==> res@ == self.ty.spec_display_name()@,
    {
        if i == 0 {
            String::from_str(self.name.as_str())
        } else {
            String::from_str(self.ty.display_name())
        }
    }

    /// The function's fields as its details list them: the signature, the
    /// kind, each parameter (`Arg 0`, `Arg 1`, ...) and the result type, if
    /// any.
    pub fn fields(&self) -> (res: Vec<(String, String)>)
        ensures
            res@.len() == 2 + self.args@.len() + if self.ret_type is Some {
                1int
            } else {
                0int
            },
            res@[0].0@ == "Signature"@ && res@[0].1@ == self.spec_signature(),
            res@[1].0@ == "Type"@ && res@[1].1@ == self.ty.spec_display_name()@,
            forall|k: int|
                0 <= k < self.args@.len() ==> (#[trigger] res@[2 + k]).0@ == "Arg "@ + decimal_chars(k as nat)
                    && res@[2 + k].1@ == self.args@[k]@,
            self.ret_type matches Some(r) ==> res@[2 + self.args@.len() as int].0@ == "Return Type"@ && res@[2
                + self.args@.len() as int].1@ == r@,
    {
        let mut res: Vec<(String, String)> = Vec::new();
        res.push((String::from_str("Signature"), self.signature()));
        res.push((String::from_str("Type"), String::from_str(self.ty.display_name())));
        let mut k: usize = 0;
        while k < self.args.len()
            invariant
                k <= self.args@.len(),
                res@.len() == 2 + k,
                res@[0].0@ == "Signature"@ && res@[0].1@ == self.spec_signature(),
                res@[1].0@ == "Type"@ && res@[1].1@ == self.ty.spec_display_name()@,
                forall|q: int|
                    0 <= q < k ==> (#[trigger] res@[2 + q]).0@ == "Arg "@ + decimal_chars(q as nat) && res@[2
                        + q].1@ == self.args@[q]@,
            decreases self.args@.len() - k,
        {
            let mut label = String::from_str("Arg ");
            push_decimal(&mut label, k as u64);
            let value = String::from_str(self.args[k].as_str());
            res.push((label, value));
            k = k + 1;
        }
        match &self.ret_type {
            Some(r) => {
                res.push((String::from_str("Return Type"), String::from_str(r.as_str())));
            },
            None => {},
        }
        res
    }
}

/// Which kinds of functions the search shows.
#[derive(Clone, Copy, Debug, PartialEq, Eq)]
pub struct FunctionCategory {
    pub incl_unknown: bool,
    pub incl_event: bool,
    pub incl_query: bool,
    pub incl_call: bool,
    pub incl_db: bool,
    pub incl_proc: bool,
    pub incl_sys_query: bool,
    pub incl_sys_call: bool,
    pub incl_user_query: bool,
}

impl FunctionCategory {
    /// Every kind shown.
    pub fn default() -> (res: FunctionCategory)
        ensures
            res == (FunctionCategory {
                incl_unknown: true,
                incl_event: true,
                incl_query: true,
                incl_call: true,
                incl_db: true,
                incl_proc: true,
                incl_sys_query: true,
                incl_sys_call: true,
                incl_user_query: true,
            }),
    {
        FunctionCategory {
            incl_unknown: true,
            incl_event: true,
            incl_query: true,
            incl_call: true,
            incl_db: true,
            incl_proc: true,
            incl_sys_query: true,
            incl_sys_call: true,
            incl_user_query: true,
        }
    }

    /// Whether functions of kind `ty` are shown.
    pub open spec fn includes(&self, ty: FunctionType) -> bool {
        match ty {
            FunctionType::Unknown => self.incl_unknown,
            FunctionType::Event => self.incl_event,
            FunctionType::Query => self.incl_query,
            FunctionType::Call => self.incl_call,
            FunctionType::Database => self.incl_db,
            FunctionType::Proc => self.incl_proc,
            FunctionType::SysQuery => self.incl_sys_query,
            FunctionType::SysCall => self.incl_sys_call,
            FunctionType::UserQuery => self.incl_user_query,
        }
    }

    /// Each kind of function is shown or hidden by its own box: the
    /// answer for a kind is that kind's flag, and the other flags play no part.
    pub proof fn lemma_each_kind_its_own_flag(self, other: FunctionCategory, ty: FunctionType)
        ensures
            ty == FunctionType::Unknown ==> self.includes(ty) == self.incl_unknown,
            ty == FunctionType::Event ==> self.includes(ty) == self.incl_event,
            ty == FunctionType::Query ==> self.includes(ty) == self.incl_query,
            ty == FunctionType::Call ==> self.includes(ty) == self.incl_call,
            ty == FunctionType::Database ==> self.includes(ty) == self.incl_db,
            ty == FunctionType::Proc ==> self.includes(ty) == self.incl_proc,
            ty == FunctionType::SysQuery ==> self.includes(ty) == self.incl_sys_query,
            ty == FunctionType::SysCall ==> self.includes(ty) == self.incl_sys_call,
            ty == FunctionType::UserQuery ==> self.includes(ty) == self.incl_user_query,
            (other == FunctionCategory { incl_call: !self.incl_call, ..self }) ==> (ty == FunctionType::Call
                <==> other.includes(ty) != self.includes(ty)),
            (other == FunctionCategory { incl_proc: !self.incl_proc, ..self }) ==> (ty == FunctionType::Proc
                <==> other.includes(ty) != self.includes(ty)),
    {
    }

    /// Whether the search shows `item`.
    pub fn filter(&self, item: &Function) -> (res: bool)
        ensures
            res == self.includes(item.ty),
    {
        match item.ty {
            FunctionType::Unknown => self.incl_unknown,
            FunctionType::Event => self.incl_event,
            FunctionType::Query => self.incl_query,
            FunctionType::Call => self.incl_call,
            FunctionType::Database => self.incl_db,
            FunctionType::Proc => self.incl_proc,
            FunctionType::SysQuery => self.incl_sys_query,
            FunctionType::SysCall => self.incl_sys_call,
            FunctionType::UserQuery => self.incl_user_query,
        }
    }
}

} // verus!
