# org_bridge

Verified decisions behind two features of a password-manager server: the
endpoints through which a directory imports, lists and confirms the members of
an organization, and single sign-on with an OpenID Connect provider, including
the end of sessions in Keycloak.

Work that touches the outside (storage, mail, HTTP, key derivation, settings) is
never done by the library. Each feature is a run that says which piece of work is
due (`pending`) and moves on when it is told the outcome (`advance`). What a run
decides is stated as a spec function or relation over its phases, and the laws
about whole runs are public proof functions beside it.

- `src/ldap_import.rs`, `src/ldap_import_laws.rs`: imports from a directory
- `src/import_records.rs`, `src/import_records_laws.rs`, `src/import_groups.rs`,
  `src/import_removals.rs`, `src/repeated_import.rs`: what imports do to what is stored
- `src/public_token.rs`: who a request speaks for
- `src/bulk_confirm.rs`, `src/public_members.rs`, `src/membership.rs`: members
- `src/client.rs`, `src/client_cache.rs`: the client at the provider, and keeping it
- `src/sso_client.rs`, `src/oidc.rs`: logins and id tokens
- `src/sso_logout.rs`, `src/keycloak.rs`: ending sessions
- `src/keycloak_admin.rs`: users in Keycloak
- `src/text.rs`, `src/base64.rs`, `src/json.rs`, `src/url_parts.rs`, `src/http.rs`,
  `src/clock.rs`, `src/sso_error.rs`: what these share
- `app/`: the web server's routes and guards, and the loops that run the work

Calls into other crates stand behind small functions marked `external_body`; the
comment on each says what is relied on without proof.
