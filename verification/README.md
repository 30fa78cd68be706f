# Stack-chan

The brain of a talking desktop robot, verified with Verus.

The library under `src/` holds every decision that the robot makes:

| module        | what it decides                                                      |
|---------------|----------------------------------------------------------------------|
| `framebuffer` | which bytes the screen shows for the pixels that were drawn          |
| `chunks`      | how the microphone's samples are cut into pieces of one length       |
| `voice`       | whether a segment of sound holds speech                              |
| `speech`      | when a recording begins and ends, and how the conversation goes on   |
| `audio`       | which devices are used, and what a recording looks like              |
| `avatar`      | what the face shows, and when new speech replaces the speech before  |

Each function states in its contract what it returns, and the public proof
functions of each module state what holds of the module as a whole. What the
`webrtc_vad` and `embedded_graphics` crates compute, and `str::contains`, is
taken on trust; the functions that call them say what they take.

The program under `app/` drives the devices and the network services.
Built with the `framebuffer` feature it draws on a framebuffer device, and
otherwise in a window.
