# signitify

Signing, provisioning and device-session logic for sideloading iOS apps, with
its behaviour stated in Verus contracts and proved.

- `src/` is the verified library: identities and entitlements, the code-signature
  model (whole-binary and per-page SHA-256), Mach-O recognition and layout, the
  signed-package manifest, provisioning allow-lists and profile fields, lockdown
  session decisions and request builders, the per-device session manager with its
  expiry rule, and the device registry with its trust rule.
- `app/` is the desktop program around it: the window, the files, the
  command-line tools and the C interface of libimobiledevice.
- `tests/` runs the library on concrete values.
