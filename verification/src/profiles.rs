//! Server profiles: the hosts the dashboard knows, which one is active, and
//! the connection that switching to one sets up.
use vstd::prelude::*;
use crate::task::{lit, Connection};
use crate::text::{str_eq, trim_str, trim};

verus! {

broadcast use vstd::string::group_string_axioms;

/// A host the dashboard can switch to.
pub struct ServerProfile {
    pub id: String,
    pub name: String,
    pub host: String,
    pub user: String,
    pub port: u16,
    pub icon: String,
}

pub struct ProfileView {
    pub id: Seq<char>,
    pub name: Seq<char>,
    pub host: Seq<char>,
    pub user: Seq<char>,
    pub port: u16,
    pub icon: Seq<char>,
}

impl View for ServerProfile {
    type V = ProfileView;

    open spec fn view(&self) -> ProfileView {
        ProfileView {
            id: self.id@,
            name: self.name@,
            host: self.host@,
            user: self.user@,
            port: self.port,
            icon: self.icon@,
        }
    }
}

impl ServerProfile {
    /// A copy of this profile.
    pub fn duplicate(&self) -> (r: ServerProfile)
        ensures
            r@ == self@,
    {
        ServerProfile {
            id: self.id.clone(),
            name: self.name.clone(),
            host: self.host.clone(),
            user: self.user.clone(),
            port: self.port,
            icon: self.icon.clone(),
        }
    }
}

/// The profile that stands for this machine.
pub open spec fn local_profile() -> ProfileView {
    ProfileView {
        id: "local"@,
        name: "Lokal"@,
        host: Seq::empty(),
        user: Seq::empty(),
        port: 22,
        icon: "🖥️"@,
    }
}

/// The first profile with the given id.
pub open spec fn find_profile(ps: Seq<ProfileView>, id: Seq<char>) -> Option<ProfileView>
    decreases ps.len(),
{
    if ps.len() == 0 {
        None
    } else if ps[0].id == id {
        Some(ps[0])
    } else {
        find_profile(ps.drop_first(), id)
    }
}

/// The id of the first profile, or the empty text where there is none.
pub open spec fn first_id(ps: Seq<ProfileView>) -> Seq<char> {
    if ps.len() > 0 {
        ps[0].id
    } else {
        Seq::empty()
    }
}

pub open spec fn other_id(id: Seq<char>) -> spec_fn(ProfileView) -> bool {
    |p: ProfileView| p.id != id
}

/// The known profiles and the id of the active one.
pub struct ProfileState {
    pub profiles: Vec<ServerProfile>,
    pub active_id: String,
}

pub struct ProfileStateView {
    pub profiles: Seq<ProfileView>,
    pub active_id: Seq<char>,
}

impl View for ProfileState {
    type V = ProfileStateView;

    open spec fn view(&self) -> ProfileStateView {
        ProfileStateView {
            profiles: self.profiles@.map_values(|p: ServerProfile| p@),
            active_id: self.active_id@,
        }
    }
}

/// The profiles at start-up: those stored where a profile file exists (none
/// where it could not be read), else the local profile alone.
pub open spec fn initial_profiles(stored: Option<Seq<ProfileView>>) -> Seq<ProfileView> {
    match stored {
        Some(ps) => ps,
        None => seq![local_profile()],
    }
}

/// What removing `id` leaves: every other profile in order, and the active
/// id, moved to the first remaining profile where it was `id`.
pub open spec fn after_remove(s: ProfileStateView, id: Seq<char>) -> ProfileStateView {
    let kept = s.profiles.filter(other_id(id));
    ProfileStateView {
        profiles: kept,
        active_id: if s.active_id == id {
            first_id(kept)
        } else {
            s.active_id
        },
    }
}

fn copy_all(v: &Vec<ServerProfile>) -> (r: Vec<ServerProfile>)
    ensures
        r@.map_values(|p: ServerProfile| p@) == v@.map_values(|p: ServerProfile| p@),
{
    let mut r: Vec<ServerProfile> = Vec::new();
    for i in 0..v.len()
        invariant
            r@.map_values(|p: ServerProfile| p@) == v@.map_values(|p: ServerProfile| p@).take(i as int),
    {
        let ghost before = r@;
        let d = v[i].duplicate();
        r.push(d);
        assert(r@.map_values(|p: ServerProfile| p@) =~= before.map_values(|p: ServerProfile| p@).push(d@));
        assert(r@.map_values(|p: ServerProfile| p@) =~= v@.map_values(|p: ServerProfile| p@).take(i + 1));
    }
    assert(v@.map_values(|p: ServerProfile| p@).take(v.len() as int) =~= v@.map_values(|p: ServerProfile| p@));
    r
}

fn find_index(v: &Vec<ServerProfile>, id: &str) -> (r: Option<usize>)
    ensures
        match r {
            Some(k) => k < v.len() && find_profile(v@.map_values(|p: ServerProfile| p@), id@) == Some(v@[k as int]@),
            None => find_profile(v@.map_values(|p: ServerProfile| p@), id@) is None,
        },
{
    let ghost ps = v@.map_values(|p: ServerProfile| p@);
    let mut i: usize = 0;
    assert(ps.skip(0) =~= ps);
    while i < v.len()
        invariant
            i <= v.len(),
            ps == v@.map_values(|p: ServerProfile| p@),
            find_profile(ps, id@) == find_profile(ps.skip(i as int), id@),
        decreases v.len() - i,
    {
        assert(ps.skip(i as int)[0] == v@[i as int]@);
        if str_eq(v[i].id.as_str(), id) {
            return Some(i);
        }
        assert(ps.skip(i as int).drop_first() =~= ps.skip(i + 1));
        i = i + 1;
    }
    None
}

impl ProfileState {
    /// The start-up state: the stored profiles where a profile file exists,
    /// else the local profile; the first one is active.
    pub fn from_stored(stored: Option<Vec<ServerProfile>>) -> (s: ProfileState)
        ensures
            s@.profiles == initial_profiles(
                match stored {
                    Some(v) => Some(v@.map_values(|p: ServerProfile| p@)),
                    None => None,
                },
            ),
            s@.active_id == first_id(s@.profiles),
    {
        let profiles = match stored {
            Some(v) => v,
            None => {
                let mut v: Vec<ServerProfile> = Vec::new();
                v.push(
                    ServerProfile {
                        id: lit("local"),
                        name: lit("Lokal"),
                        host: String::new(),
                        user: String::new(),
                        port: 22,
                        icon: lit("🖥️"),
                    },
                );
                assert(v@.map_values(|p: ServerProfile| p@) =~= seq![local_profile()]);
                v
            },
        };
        let active_id = if profiles.len() > 0 {
            profiles[0].id.clone()
        } else {
            String::new()
        };
        ProfileState { profiles, active_id }
    }

    /// All profiles, in order.
    pub fn profile_list(&self) -> (r: Vec<ServerProfile>)
        ensures
            r@.map_values(|p: ServerProfile| p@) == self@.profiles,
    {
        copy_all(&self.profiles)
    }

    /// Adds a profile under the given id at the end and answers the id.
    pub fn profile_add(
        &mut self,
        id: String,
        name: String,
        host: String,
        user: String,
        port: u16,
        icon: String,
    ) -> (r: String)
        ensures
            r@ == id@,
            final(self)@.profiles == old(self)@.profiles.push(
                ProfileView { id: id@, name: name@, host: host@, user: user@, port, icon: icon@ },
            ),
            final(self)@.active_id == old(self)@.active_id,
    {
        let answer = id.clone();
        let p = ServerProfile { id, name, host, user, port, icon };
        let ghost before = self.profiles@;
        self.profiles.push(p);
        assert(self.profiles@.map_values(|p: ServerProfile| p@) =~= before.map_values(
            |p: ServerProfile| p@,
        ).push(p@));
        answer
    }

    /// Removes every profile with the given id; the local profile cannot be
    /// removed. Where the active profile goes, the first remaining one
    /// becomes active.
    pub fn profile_remove(&mut self, id: &str) -> (r: Result<(), String>)
        ensures
            id@ == "local"@ ==> (r matches Err(e) && e@ == "Lokales Profil kann nicht gelöscht werden"@
                && final(self)@ == old(self)@),
            id@ != "local"@ ==> r is Ok && final(self)@ == after_remove(old(self)@, id@),
    {
        if str_eq(id, "local") {
            return Err(lit("Lokales Profil kann nicht gelöscht werden"));
        }
        let ghost ps = self.profiles@.map_values(|p: ServerProfile| p@);
        let mut kept: Vec<ServerProfile> = Vec::new();
        let mut old_list: Vec<ServerProfile> = Vec::new();
        std::mem::swap(&mut old_list, &mut self.profiles);
        let n = old_list.len();
        assert(ps.take(0) =~= Seq::<ProfileView>::empty());
        let mut i: usize = 0;
        while i < n
            invariant
                n == i + old_list@.len(),
                forall|k: int| 0 <= k < old_list@.len() ==> #[trigger] old_list@[k]@ == ps[i + k],
                ps.len() == n,
                kept@.map_values(|p: ServerProfile| p@) == ps.take(i as int).filter(other_id(id@)),
            decreases n - i,
        {
            reveal_with_fuel(Seq::filter, 1);
            assert(ps.take(i + 1).drop_last() =~= ps.take(i as int));
            assert(old_list@[0]@ == ps[i as int]);
            let p = old_list.remove(0);
            if !str_eq(p.id.as_str(), id) {
                let ghost before = kept@;
                kept.push(p);
                assert(kept@.map_values(|p: ServerProfile| p@) =~= before.map_values(
                    |p: ServerProfile| p@,
                ).push(ps[i as int]));
            }
            assert forall|k: int| 0 <= k < old_list@.len() implies #[trigger] old_list@[k]@ == ps[
                i + 1 + k] by {
            }
            i = i + 1;
        }
        assert(ps.take(n as int) =~= ps);
        self.profiles = kept;
        if str_eq(self.active_id.as_str(), id) {
            self.active_id = if self.profiles.len() > 0 {
                self.profiles[0].id.clone()
            } else {
                String::new()
            };
        }
        Ok(())
    }

    /// Makes the profile with the given id active and points the connection
    /// at its host and user; answers the profile, or refuses an unknown id
    /// and changes nothing.
    pub fn profile_switch(&mut self, id: &str, conn: &mut Connection) -> (r: Result<ServerProfile, String>)
        ensures
            match find_profile(old(self)@.profiles, id@) {
                Some(p) => r matches Ok(x) && x@ == p && final(self)@.profiles == old(self)@.profiles
                    && final(self)@.active_id == id@ && final(conn).host@ == p.host
                    && final(conn).user@ == p.user,
                None => r matches Err(e) && e@ == "Profil nicht gefunden"@ && final(self)@ == old(
                    self,
                )@ && final(conn).host@ == old(conn).host@ && final(conn).user@ == old(conn).user@,
            },
    {
        match find_index(&self.profiles, id) {
            None => Err(lit("Profil nicht gefunden")),
            Some(k) => {
                let p = self.profiles[k].duplicate();
                self.active_id = lit(id);
                conn.host = p.host.clone();
                conn.user = p.user.clone();
                Ok(p)
            },
        }
    }

    /// The active profile, or an error where no profile has the active id.
    pub fn profile_get_active(&self) -> (r: Result<ServerProfile, String>)
        ensures
            match find_profile(self@.profiles, self@.active_id) {
                Some(p) => r matches Ok(x) && x@ == p,
                None => r matches Err(e) && e@ == "Kein aktives Profil"@,
            },
    {
        match find_index(&self.profiles, self.active_id.as_str()) {
            None => Err(lit("Kein aktives Profil")),
            Some(k) => Ok(self.profiles[k].duplicate()),
        }
    }
}

/// Switching to a profile and then asking for the active one gives that
/// profile back.
pub proof fn law_switch_then_active(s: ProfileStateView, id: Seq<char>)
    ensures
        find_profile(s.profiles, id) matches Some(p) ==> find_profile(
            ProfileStateView { profiles: s.profiles, active_id: id }.profiles,
            ProfileStateView { profiles: s.profiles, active_id: id }.active_id,
        ) == Some(p),
{
}

/// After a profile is removed, no profile with its id is left, and every
/// other profile is kept.
pub proof fn law_remove_forgets(s: ProfileStateView, id: Seq<char>)
    ensures
        find_profile(after_remove(s, id).profiles, id) is None,
        forall|other: Seq<char>|
            other != id ==> #[trigger] find_profile(after_remove(s, id).profiles, other)
                == find_profile(s.profiles, other),
{
    lemma_find_filter(s.profiles, id);
}

proof fn lemma_find_filter(ps: Seq<ProfileView>, id: Seq<char>)
    ensures
        find_profile(ps.filter(other_id(id)), id) is None,
        forall|other: Seq<char>|
            other != id ==> #[trigger] find_profile(ps.filter(other_id(id)), other) == find_profile(
                ps,
                other,
            ),
    decreases ps.len(),
{
    broadcast use Seq::filter_distributes_over_add;

    let pred = other_id(id);
    if ps.len() == 0 {
        reveal_with_fuel(Seq::filter, 1);
        assert(ps.filter(pred) =~= Seq::<ProfileView>::empty());
    } else {
        let x = ps[0];
        let rest = ps.drop_first();
        lemma_find_filter(rest, id);
        assert(ps =~= seq![x] + rest);
        reveal_with_fuel(Seq::filter, 2);
        assert(seq![x].drop_last() =~= Seq::<ProfileView>::empty());
        let f = ps.filter(pred);
        assert(f == seq![x].filter(pred) + rest.filter(pred));
        if x.id != id {
            assert(seq![x].filter(pred) =~= seq![x]);
            assert(f.drop_first() =~= rest.filter(pred));
            assert(f[0] == x);
        } else {
            assert(seq![x].filter(pred) =~= Seq::<ProfileView>::empty());
            assert(f =~= rest.filter(pred));
        }
        assert forall|other: Seq<char>|
            other != id implies #[trigger] find_profile(ps.filter(other_id(id)), other) == find_profile(
                ps,
                other,
            ) by {
            assert(find_profile(rest.filter(pred), other) == find_profile(rest, other));
        }
    }
}

// ─── The connection ─────────────────────────────────────────────────────────

/// The connection as the dashboard shows it.
pub struct ConnectionInfo {
    pub host: String,
    pub user: String,
    pub mode: String,
}

/// "local" without a remote host, else "remote".
pub open spec fn mode_text(host: Seq<char>) -> Seq<char> {
    if host.len() == 0 {
        "local"@
    } else {
        "remote"@
    }
}

impl Connection {
    /// The connection's host, user and mode.
    pub fn get_connection(&self) -> (r: ConnectionInfo)
        ensures
            r.host@ == self.host@,
            r.user@ == self.user@,
            r.mode@ == mode_text(self.host@),
    {
        let mode = if self.is_remote() {
            lit("remote")
        } else {
            lit("local")
        };
        ConnectionInfo { host: self.host.clone(), user: self.user.clone(), mode }
    }

    /// Points the connection at a host and user, both trimmed; an empty
    /// host means this machine.
    pub fn set_connection(&mut self, host: &str, user: &str) -> (r: ConnectionInfo)
        ensures
            final(self).host@ == trim(host@),
            final(self).user@ == trim(user@),
            r.host@ == trim(host@),
            r.user@ == trim(user@),
            r.mode@ == mode_text(trim(host@)),
    {
        self.host = trim_str(host);
        self.user = trim_str(user);
        self.get_connection()
    }
}

} // verus!
