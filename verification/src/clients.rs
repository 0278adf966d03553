use vstd::prelude::*;

use crate::config::{Account, Accounts, Client};

verus! {

/// For each supported client size, the sum of the client area's width and
/// height, and the position of the battery change confirmation button
/// relative to the window.
pub open spec fn offsets() -> Seq<(i32, (i32, i32))> {
    seq![
        (1400, (350, 360)),  // 800x600
        (1792, (465, 445)),  // 1024x768
        (2000, (590, 420)),  // 1280x720
        (2048, (590, 445)),  // 1280x768
        (2080, (590, 460)),  // 1280x800
        (2304, (590, 570)),  // 1280x1024
        (2128, (630, 445)),  // 1360x768
        (2450, (650, 585)),  // 1400x1050
        (2340, (670, 510)),  // 1440x900
        (2500, (750, 510)),  // 1600x900
        (2800, (750, 595)),  // 1600x1200
        (2730, (790, 585)),  // 1680x1050
        (3000, (910, 595)),  // 1920x1080
        (3120, (910, 595)),  // 1920x1200
    ]
}

/// The button offset for a client area whose width plus height is `size`:
/// that of the first entry of [`offsets`] for this size, or `(0, 0)`.
pub open spec fn offset_for(size: int) -> (i32, i32) {
    if exists|i: int| 0 <= i < offsets().len() && (#[trigger] offsets()[i]).0 == size {
        let i = choose|i: int|
            0 <= i < offsets().len() && (#[trigger] offsets()[i]).0 == size && forall|j: int|
                0 <= j < i ==> (#[trigger] offsets()[j]).0 != size;
        offsets()[i].1
    } else {
        (0, 0)
    }
}

/// The client area sizes (width plus height) of the supported resolutions:
/// 800x600, 1024x768, 1280x720, 1280x768, 1280x800, 1280x1024, 1360x768,
/// 1400x1050, 1440x900, 1600x900, 1600x1200, 1680x1050, 1920x1080, 1920x1200.
pub open spec fn supported_size(size: int) -> bool {
    ||| size == 800int + 600int
    ||| size == 1024int + 768int
    ||| size == 1280int + 720int
    ||| size == 1280int + 768int
    ||| size == 1280int + 800int
    ||| size == 1280int + 1024int
    ||| size == 1360int + 768int
    ||| size == 1400int + 1050int
    ||| size == 1440int + 900int
    ||| size == 1600int + 900int
    ||| size == 1600int + 1200int
    ||| size == 1680int + 1050int
    ||| size == 1920int + 1080int
    ||| size == 1920int + 1200int
}

proof fn lemma_offset_for_entry(i: int)
    requires
        0 <= i < 14,
    ensures
        offset_for(offsets()[i].0 as int) == offsets()[i].1,
{
    let t = offsets();
    let size = t[i].0 as int;
    assert(forall|j: int, k: int| 0 <= j < k < 14 ==> t[j].0 != t[k].0);
    assert(0 <= i < t.len() && t[i].0 == size);
    let w = choose|k: int|
        0 <= k < offsets().len() && (#[trigger] offsets()[k]).0 == size && forall|j: int|
            0 <= j < k ==> (#[trigger] offsets()[j]).0 != size;
    assert(forall|j: int| 0 <= j < i ==> (#[trigger] offsets()[j]).0 != size);
    assert(w == i);
}

/// The button offset for each supported resolution, and `(0, 0)` for any
/// other client size.
pub proof fn lemma_supported_offsets()
    ensures
        offset_for(800int + 600int) == (350i32, 360i32),
        offset_for(1024int + 768int) == (465i32, 445i32),
        offset_for(1280int + 720int) == (590i32, 420i32),
        offset_for(1280int + 768int) == (590i32, 445i32),
        offset_for(1280int + 800int) == (590i32, 460i32),
        offset_for(1280int + 1024int) == (590i32, 570i32),
        offset_for(1360int + 768int) == (630i32, 445i32),
        offset_for(1400int + 1050int) == (650i32, 585i32),
        offset_for(1440int + 900int) == (670i32, 510i32),
        offset_for(1600int + 900int) == (750i32, 510i32),
        offset_for(1600int + 1200int) == (750i32, 595i32),
        offset_for(1680int + 1050int) == (790i32, 585i32),
        offset_for(1920int + 1080int) == (910i32, 595i32),
        offset_for(1920int + 1200int) == (910i32, 595i32),
        forall|size: int| !supported_size(size) ==> offset_for(size) == (0i32, 0i32),
{
    let t = offsets();
    lemma_offset_for_entry(0);
    lemma_offset_for_entry(1);
    lemma_offset_for_entry(2);
    lemma_offset_for_entry(3);
    lemma_offset_for_entry(4);
    lemma_offset_for_entry(5);
    lemma_offset_for_entry(6);
    lemma_offset_for_entry(7);
    lemma_offset_for_entry(8);
    lemma_offset_for_entry(9);
    lemma_offset_for_entry(10);
    lemma_offset_for_entry(11);
    lemma_offset_for_entry(12);
    lemma_offset_for_entry(13);
    assert forall|size: int| !supported_size(size) implies offset_for(size) == (0i32, 0i32) by {
        assert forall|i: int| 0 <= i < t.len() implies (#[trigger] t[i]).0 != size by {
        }
    }
}

/// The offset of the battery confirmation button for a client area whose
/// right and bottom edges are `right` and `bottom`.
pub fn client_offset(right: i32, bottom: i32) -> (r: (i32, i32))
    requires
        i32::MIN <= right + bottom <= i32::MAX,
    ensures
        r == offset_for(right + bottom),
        right + bottom == 1400 ==> r == (350i32, 360i32),
        right + bottom == 1792 ==> r == (465i32, 445i32),
        right + bottom == 2000 ==> r == (590i32, 420i32),
        right + bottom == 2048 ==> r == (590i32, 445i32),
        right + bottom == 2080 ==> r == (590i32, 460i32),
        right + bottom == 2304 ==> r == (590i32, 570i32),
        right + bottom == 2128 ==> r == (630i32, 445i32),
        right + bottom == 2450 ==> r == (650i32, 585i32),
        right + bottom == 2340 ==> r == (670i32, 510i32),
        right + bottom == 2500 ==> r == (750i32, 510i32),
        right + bottom == 2800 ==> r == (750i32, 595i32),
        right + bottom == 2730 ==> r == (790i32, 585i32),
        right + bottom == 3000 ==> r == (910i32, 595i32),
        right + bottom == 3120 ==> r == (910i32, 595i32),
        supported_size(right + bottom) || r == (0i32, 0i32),
{
    let r = lookup_offset(right + bottom);
    proof {
        lemma_supported_offsets();
    }
    r
}

/// The entry of [`offsets`] for `size`, as the table is walked.
fn lookup_offset(size: i32) -> (r: (i32, i32))
    ensures
        r == offset_for(size as int),
{
    let table: [(i32, (i32, i32)); 14] = [
        (1400, (350, 360)),
        (1792, (465, 445)),
        (2000, (590, 420)),
        (2048, (590, 445)),
        (2080, (590, 460)),
        (2304, (590, 570)),
        (2128, (630, 445)),
        (2450, (650, 585)),
        (2340, (670, 510)),
        (2500, (750, 510)),
        (2800, (750, 595)),
        (2730, (790, 585)),
        (3000, (910, 595)),
        (3120, (910, 595)),
    ];
    assert(table@ =~= offsets());
    let mut i: usize = 0;
    while i < 14
        invariant
            i <= 14,
            table@ == offsets(),
            forall|j: int| 0 <= j < i ==> (#[trigger] offsets()[j]).0 != size,
        decreases 14 - i,
    {
        let entry = table[i];
        if entry.0 == size {
            proof {
                let w = choose|k: int|
                    0 <= k < offsets().len() && (#[trigger] offsets()[k]).0 == size && forall|
                        j: int,
                    | 0 <= j < k ==> (#[trigger] offsets()[j]).0 != size;
                assert(0 <= i < offsets().len() && offsets()[i as int].0 == size);
                if w < i {
                    assert(offsets()[w].0 != size);
                } else if w > i {
                    assert(offsets()[i as int].0 != size);
                }
            }
            return entry.1;
        }
        i = i + 1;
    }
    (0, 0)
}

/// `i` is the first configured account whose login name is `account`.
pub open spec fn first_account(accounts: Seq<Account>, account: Seq<char>, i: int) -> bool {
    &&& 0 <= i < accounts.len()
    &&& accounts[i].account@ == account
    &&& forall|j: int| 0 <= j < i ==> (#[trigger] accounts[j]).account@ != account
}

/// A window belongs to a client when it is visible and enabled and its
/// process runs the configured executable.
pub fn is_target_window(visible: bool, enabled: bool, base_name: Option<&str>, executable: &str) -> (b:
    bool)
    ensures
        b == (visible && enabled && (base_name matches Some(n) && n@ == executable@)),
{
    if visible && enabled {
        match base_name {
            Some(n) => n.to_owned() == executable.to_owned(),
            None => false,
        }
    } else {
        false
    }
}

/// The client of a window: its name and collector flag come from the first
/// configured account with the login name read from the client, or, if there
/// is none, the name is the login name followed by " (account name)" and it
/// does not collect; the button offset comes from the client area's size.
pub fn client_for_window(
    pid: u32,
    hwnd: u32,
    account: String,
    accounts: &Accounts,
    right: i32,
    bottom: i32,
) -> (r: Client)
    requires
        i32::MIN <= right + bottom <= i32::MAX,
    ensures
        r.pid == pid,
        r.hwnd == hwnd,
        (r.offx, r.offy) == offset_for(right + bottom),
        forall|i: int| #[trigger]
            first_account(accounts.account@, account@, i) ==> r.name == accounts.account[i].name
                && r.collect == accounts.account[i].collect,
        (forall|i: int|
            0 <= i < accounts.account.len() ==> (#[trigger] accounts.account[i]).account@
                != account@) ==> r.name@ == account@ + " (account name)"@ && !r.collect,
{
    let offset = client_offset(right, bottom);
    let mut i: usize = 0;
    let n = accounts.account.len();
    while i < n
        invariant
            i <= n == accounts.account.len(),
            offset == offset_for(right + bottom),
            forall|j: int| 0 <= j < i ==> (#[trigger] accounts.account[j]).account@ != account@,
        decreases n - i,
    {
        let x = &accounts.account[i];
        if x.account == account {
            proof {
                assert(first_account(accounts.account@, account@, i as int));
                assert forall|k: int| #[trigger]
                    first_account(accounts.account@, account@, k) implies k == i by {
                    if k < i {
                        assert(accounts.account[k].account@ != account@);
                    } else if k > i {
                        assert(accounts.account[i as int].account@ != account@);
                    }
                }
            }
            return Client {
                pid,
                hwnd,
                name: x.name.clone(),
                collect: x.collect,
                offx: offset.0,
                offy: offset.1,
            };
        }
        i = i + 1;
    }
    Client {
        pid,
        hwnd,
        name: account.concat(" (account name)"),
        collect: false,
        offx: offset.0,
        offy: offset.1,
    }
}

/// The clients that run as collectors, in order.
pub fn collectors(clients: &Vec<Client>) -> (r: Vec<Client>)
    ensures
        r@ == clients@.filter(|c: Client| c.collect),
{
    let ghost pred = |c: Client| c.collect;
    let mut r: Vec<Client> = Vec::new();
    let mut i: usize = 0;
    assert(clients@.take(0).filter(pred) =~= Seq::<Client>::empty()) by {
        reveal_with_fuel(Seq::<_>::filter, 1);
    }
    while i < clients.len()
        invariant
            i <= clients.len(),
            pred == (|c: Client| c.collect),
            r@ == clients@.take(i as int).filter(pred),
        decreases clients.len() - i,
    {
        let c = &clients[i];
        proof {
            let p = clients@.take(i + 1);
            assert(p.drop_last() =~= clients@.take(i as int));
            assert(p.last() == *c);
            assert(pred(*c) == c.collect);
            reveal_with_fuel(Seq::<_>::filter, 1);
            assert(p.filter(pred) == if c.collect {
                clients@.take(i as int).filter(pred).push(*c)
            } else {
                clients@.take(i as int).filter(pred)
            });
        }
        if c.collect {
            r.push(c.duplicate());
        }
        i = i + 1;
    }
    assert(clients@.take(clients.len() as int) =~= clients@);
    r
}

} // verus!
